//! The Wi-Fi side of the station: seeds made of two random words, and the
//! supervisor of the link, which scans once and then keeps reconnecting.

use vstd::prelude::*;

verus! {

/// A 64-bit seed from two random 32-bit words, the first one high.
pub fn combine_seed(high: u32, low: u32) -> (seed: u64)
    ensures
        seed == high as int * 0x1_0000_0000 + low as int,
{
    let seed: u64 = ((high as u64) << 32u64) | (low as u64);
    assert(((high as u64) << 32u64) | (low as u64) == high as u64 * 0x1_0000_0000u64 + low as u64)
        by (bit_vector);
    seed
}

/// What the link supervisor does next.
#[derive(PartialEq, Eq, Structural, Clone, Copy, Debug)]
pub enum LinkAction {
    /// List the networks in reach.
    Scan,
    /// Join the configured network.
    Connect,
    /// Stay connected until the network drops.
    AwaitDisconnect,
    /// Wait this many seconds.
    Pause(u64),
}

/// How the last link action went.
#[derive(PartialEq, Eq, Structural, Clone, Copy, Debug)]
pub enum LinkOutcome {
    /// It succeeded (for `AwaitDisconnect`: the network dropped).
    Done,
    /// It failed.
    Failed,
}

/// Where the link supervisor stands.
#[derive(PartialEq, Eq, Structural, Clone, Copy, Debug)]
pub enum LinkPhase {
    Scanning,
    Connecting,
    Online,
    Resting,
}

/// Seconds between a failure or a drop and the next connection attempt.
pub const RETRY_SECS: u64 = 5;

/// The action carried out in a phase.
pub open spec fn link_action_of(p: LinkPhase) -> LinkAction {
    match p {
        LinkPhase::Scanning => LinkAction::Scan,
        LinkPhase::Connecting => LinkAction::Connect,
        LinkPhase::Online => LinkAction::AwaitDisconnect,
        LinkPhase::Resting => LinkAction::Pause(RETRY_SECS),
    }
}

/// The phase that follows `p` when its action ended with `o`.
pub open spec fn next_link_phase(p: LinkPhase, o: LinkOutcome) -> LinkPhase {
    match p {
        LinkPhase::Scanning => LinkPhase::Connecting,
        LinkPhase::Connecting => if o == LinkOutcome::Done {
            LinkPhase::Online
        } else {
            LinkPhase::Resting
        },
        LinkPhase::Online => LinkPhase::Resting,
        LinkPhase::Resting => LinkPhase::Connecting,
    }
}

/// The supervisor of the Wi-Fi link.
pub struct WifiLink {
    phase: LinkPhase,
}

impl WifiLink {
    /// The current phase.
    pub closed spec fn phase(&self) -> LinkPhase {
        self.phase
    }

    /// A supervisor that starts with a scan.
    pub fn new() -> (s: Self)
        ensures
            s.phase() == LinkPhase::Scanning,
    {
        WifiLink { phase: LinkPhase::Scanning }
    }

    /// The action to carry out now.
    pub fn current(&self) -> (a: LinkAction)
        ensures
            a == link_action_of(self.phase()),
    {
        match self.phase {
            LinkPhase::Scanning => LinkAction::Scan,
            LinkPhase::Connecting => LinkAction::Connect,
            LinkPhase::Online => LinkAction::AwaitDisconnect,
            LinkPhase::Resting => LinkAction::Pause(RETRY_SECS),
        }
    }

    /// Records how the current action went and gives the next one.
    pub fn advance(&mut self, outcome: LinkOutcome) -> (a: LinkAction)
        ensures
            final(self).phase() == next_link_phase(old(self).phase(), outcome),
            a == link_action_of(final(self).phase()),
    {
        let next = match self.phase {
            LinkPhase::Scanning => LinkPhase::Connecting,
            LinkPhase::Connecting => {
                if outcome == LinkOutcome::Done {
                    LinkPhase::Online
                } else {
                    LinkPhase::Resting
                }
            },
            LinkPhase::Online => LinkPhase::Resting,
            LinkPhase::Resting => LinkPhase::Connecting,
        };
        self.phase = next;
        self.current()
    }
}

/// The supervisor never gives up: from any phase, whatever happens, a
/// connection attempt comes within three actions, and after a failed
/// attempt or a drop it waits five seconds and tries again.
pub proof fn lemma_always_reconnects(p: LinkPhase, o1: LinkOutcome, o2: LinkOutcome, o3: LinkOutcome)
    ensures
        link_action_of(next_link_phase(p, o1)) == LinkAction::Connect || link_action_of(
            next_link_phase(next_link_phase(p, o1), o2),
        ) == LinkAction::Connect || link_action_of(
            next_link_phase(next_link_phase(next_link_phase(p, o1), o2), o3),
        ) == LinkAction::Connect,
        (p == LinkPhase::Online || (p == LinkPhase::Connecting && o1 == LinkOutcome::Failed))
            ==> link_action_of(next_link_phase(p, o1)) == LinkAction::Pause(RETRY_SECS)
            && link_action_of(next_link_phase(next_link_phase(p, o1), o2)) == LinkAction::Connect,
{
}

/// After the scan, whatever it found, the supervisor tries to join the
/// network; it waits for a drop only on a link that a connection attempt
/// has just joined, and it pauses only after a failed attempt or a drop.
pub proof fn lemma_link_reactions(p: LinkPhase, o: LinkOutcome)
    ensures
        link_action_of(p) == LinkAction::Scan ==> link_action_of(next_link_phase(p, o))
            == LinkAction::Connect,
        link_action_of(next_link_phase(p, o)) == LinkAction::AwaitDisconnect <==> (
        link_action_of(p) == LinkAction::Connect && o == LinkOutcome::Done),
        link_action_of(next_link_phase(p, o)) is Pause <==> ((link_action_of(p)
            == LinkAction::Connect && o == LinkOutcome::Failed) || link_action_of(p)
            == LinkAction::AwaitDisconnect),
        link_action_of(p) is Pause ==> link_action_of(next_link_phase(p, o))
            == LinkAction::Connect,
        link_action_of(next_link_phase(p, o)) is Pause ==> link_action_of(next_link_phase(p, o))
            == LinkAction::Pause(5),
{
}

/// A new supervisor scans first, and its first connection attempt comes
/// right after the scan.
pub proof fn lemma_first_attempt_follows_scan(o: LinkOutcome)
    ensures
        link_action_of(LinkPhase::Scanning) == LinkAction::Scan,
        link_action_of(next_link_phase(LinkPhase::Scanning, o)) == LinkAction::Connect,
{
}

/// The networks are listed once, at start: no phase leads back to the scan.
pub proof fn lemma_scan_only_at_start(p: LinkPhase, o: LinkOutcome)
    ensures
        next_link_phase(p, o) != LinkPhase::Scanning,
{
}

} // verus!
