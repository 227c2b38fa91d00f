//! Protocol negotiation over an in-memory stream: the advertised name is
//! selected, and a dialer advertising the wrong protocol fails selection.

use std::time::Duration;

use futures::future::join;
use multistream_select::{dialer_select_proto, listener_select_proto, Version};
use p2p_tls_handshake::upgrade::protocol_name;
use tokio_util::compat::TokioAsyncReadCompatExt;

fn runtime() -> tokio::runtime::Runtime {
    tokio::runtime::Builder::new_current_thread()
        .enable_time()
        .build()
        .expect("runtime builds")
}

#[test]
fn tls_protocol_is_selected() {
    let rt = runtime();
    rt.block_on(async {
        let (a, b) = tokio::io::duplex(4096);
        let dialer = dialer_select_proto(a.compat(), std::iter::once(protocol_name()), Version::V1);
        let listener = listener_select_proto(b.compat(), std::iter::once(protocol_name()));
        let (dr, lr) = join(dialer, listener).await;
        let (dinfo, _dstream) = dr.expect("dialer selects the advertised protocol");
        let (linfo, _lstream) = lr.expect("listener selects the advertised protocol");
        assert_eq!(dinfo, "/tls/1.0.0");
        assert_eq!(linfo, "/tls/1.0.0");
    });
}

#[test]
fn wrong_protocol_fails_selection() {
    let rt = runtime();
    rt.block_on(async {
        let (a, b) = tokio::io::duplex(4096);
        let dialer = dialer_select_proto(a.compat(), std::iter::once("/wrong/1.0.0"), Version::V1);
        let listener = listener_select_proto(b.compat(), std::iter::once(protocol_name()));
        let both = tokio::time::timeout(Duration::from_secs(5), join(dialer, listener)).await;
        match both {
            Ok((dr, lr)) => {
                assert!(dr.is_err(), "the dialer must observe a failed negotiation");
                assert!(lr.is_err(), "the listener must observe a failed negotiation");
            },
            // The listener may keep waiting for another proposal after the
            // dialer gave up; both ways, nothing was selected.
            Err(_) => {},
        }
    });
}
