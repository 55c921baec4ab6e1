use punktfunk::pad_feed::{anyone, frame_for, resync_due, PadFeed, PadFrame, FEED_CAPACITY};
use tokio::sync::broadcast::error::RecvError;

fn frame(pad: u8, buttons: u32) -> PadFrame {
    PadFrame {
        pad,
        ts_ms: 1,
        device: "xbox360".into(),
        declared: None,
        slot: Some(0),
        present: true,
        buttons,
        left_trigger: 0,
        right_trigger: 0,
        ls_x: 0,
        ls_y: 0,
        rs_x: 0,
        rs_y: 0,
    }
}

/// Runs what waits to its end.
fn wait<F: std::future::Future>(f: F) -> F::Output {
    tokio::runtime::Builder::new_current_thread()
        .build()
        .unwrap()
        .block_on(f)
}

#[test]
fn nobody_watching_means_nothing_is_built() {
    let mut feed = PadFeed::new();
    let mut built = 0;
    feed.publish(|| {
        built += 1;
        frame(0, 1)
    });
    assert_eq!(built, 0, "an unwatched feed must not build a frame");
    assert!(!feed.watching());
    assert!(!feed.take_resync(), "no subscriber, nothing to resync for");

    let _rx = feed.subscribe();
    feed.publish(|| {
        built += 1;
        frame(0, 1)
    });
    assert_eq!(built, 1);
}

#[test]
fn a_fresh_subscriber_arms_one_resync() {
    let mut feed = PadFeed::new();
    let _rx = feed.subscribe();
    assert!(feed.take_resync());
    assert!(!feed.take_resync(), "taken once, not on every wake");
}

#[test]
fn a_consumer_that_cannot_keep_up_lags_instead_of_growing_the_host() {
    let mut feed = PadFeed::new();
    let mut rx = feed.subscribe();
    for i in 0..(FEED_CAPACITY + 8) {
        feed.publish(|| frame(0, i as u32));
    }
    assert!(
        matches!(wait(rx.recv()), Err(RecvError::Lagged(_))),
        "an overrun consumer must lag, not be buffered"
    );
}

#[test]
fn one_session_never_sees_another_sessions_pads() {
    let (mut a, mut b) = (PadFeed::new(), PadFeed::new());
    let mut rx_a = a.subscribe();
    let mut rx_b = b.subscribe();
    a.publish(|| frame(0, 0xAA));
    b.publish(|| frame(0, 0xBB));

    assert_eq!(wait(rx_a.recv()).unwrap().buttons, 0xAA);
    assert_eq!(wait(rx_b.recv()).unwrap().buttons, 0xBB);
    assert!(rx_a.try_recv().is_err(), "A's stream holds only A's pads");
    assert!(rx_b.try_recv().is_err(), "B's stream holds only B's pads");
}

#[test]
fn a_resync_waits_for_someone_to_watch() {
    let mut feed = PadFeed::new();
    let rx = feed.subscribe();
    drop(rx);
    assert!(!feed.take_resync());
    let _rx = feed.subscribe();
    assert!(feed.take_resync());
    assert_eq!(resync_due(true, false), (false, true));
    assert_eq!(resync_due(true, true), (true, false));
    assert_eq!(resync_due(false, true), (false, false));
    assert_eq!(frame_for(true, || frame(2, 3)), Some(frame(2, 3)));
    assert_eq!(frame_for(false, || frame(2, 3)), None);
}

#[test]
fn a_count_of_receivers_is_anyone() {
    assert!(!anyone(0));
    assert!(anyone(1) && anyone(2));
    let mut feed = PadFeed::new();
    assert!(!feed.watching());
    let rx = feed.subscribe();
    assert!(feed.watching());
    drop(rx);
    assert!(!feed.watching());
}

#[test]
fn a_default_feed_is_a_new_one() {
    let mut feed = PadFeed::default();
    assert!(!feed.watching());
    assert!(!feed.take_resync());
    let rx = feed.subscribe();
    assert!(feed.watching());
    assert!(feed.take_resync());
    drop(rx);
}

#[test]
fn frames_are_handed_on_in_the_order_they_are_published() {
    let mut feed = PadFeed::new();
    assert!(!feed.publish(|| frame(0, 1)), "nobody has attached");
    let mut rx = feed.subscribe();
    assert!(feed.publish(|| frame(1, 2)));
    assert!(feed.publish(|| frame(2, 3)));
    assert_eq!(wait(rx.recv()).unwrap(), frame(1, 2));
    assert_eq!(wait(rx.recv()).unwrap(), frame(2, 3));
    assert!(rx.try_recv().is_err());
    drop(rx);
    assert!(!feed.publish(|| frame(3, 4)), "the last console has left");
}
