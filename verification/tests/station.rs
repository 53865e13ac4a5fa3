use wifi_hello::panel::{icon_pixel, inverted, Ink, ICON_OFFSET};
use wifi_hello::wifi::{combine_seed, LinkAction, LinkOutcome, WifiLink};

#[test]
fn seed_puts_first_word_high() {
    assert_eq!(combine_seed(1, 2), 0x0000_0001_0000_0002);
    assert_eq!(combine_seed(0, u32::MAX), 0x0000_0000_FFFF_FFFF);
    assert_eq!(combine_seed(u32::MAX, 0), 0xFFFF_FFFF_0000_0000);
    assert_eq!(combine_seed(u32::MAX, u32::MAX), u64::MAX);
    assert_eq!(combine_seed(0xDEAD_BEEF, 0x1234_5678), (0xDEAD_BEEFu64 << 32) | 0x1234_5678);
}

#[test]
fn icon_pixels_move_and_swap_inks() {
    assert_eq!(ICON_OFFSET, (15, 30));
    assert_eq!(icon_pixel(0, 0, Ink::Black), (15, 30, Ink::White));
    assert_eq!(icon_pixel(49, 9, Ink::White), (64, 39, Ink::Black));
    assert_eq!(icon_pixel(-15, -30, Ink::Black), (0, 0, Ink::White));
}

#[test]
fn inverting_twice_gives_the_ink_back() {
    for ink in [Ink::Black, Ink::White] {
        assert_ne!(inverted(ink), ink);
        assert_eq!(inverted(inverted(ink)), ink);
    }
}

#[test]
fn link_scans_then_connects() {
    let mut link = WifiLink::new();
    assert_eq!(link.current(), LinkAction::Scan);
    assert_eq!(link.advance(LinkOutcome::Failed), LinkAction::Connect);
    assert_eq!(link.advance(LinkOutcome::Done), LinkAction::AwaitDisconnect);
    assert_eq!(link.advance(LinkOutcome::Done), LinkAction::Pause(5));
    assert_eq!(link.advance(LinkOutcome::Done), LinkAction::Connect);
}

#[test]
fn link_retries_after_a_failed_attempt() {
    let mut link = WifiLink::new();
    link.advance(LinkOutcome::Done);
    for _ in 0..3 {
        assert_eq!(link.advance(LinkOutcome::Failed), LinkAction::Pause(5));
        assert_eq!(link.advance(LinkOutcome::Failed), LinkAction::Connect);
    }
}
