//! Fetching the lyrics of a whole library ahead of time, one track at a time.

use vstd::prelude::*;

use crate::error;
use crate::error::AppError;
use crate::lyrics_waterfall::Reply;

verus! {

/// How long the network is left alone after it was asked, in milliseconds.
pub const LRCLIB_THROTTLE_MS: u64 = 500;

/// How far a prefetch has come.
#[derive(PartialEq, Eq, Debug)]
pub struct LyricsPrefetchProgress {
    pub processed: u32,
    pub total: u32,
    pub hits: u32,
    pub misses: u32,
    pub failed: u32,
    pub current_title: Option<String>,
}

/// What a prefetch came to.
#[derive(Clone, Copy, PartialEq, Eq, Debug, Structural)]
pub struct LyricsPrefetchSummary {
    pub processed: u32,
    pub hits: u32,
    pub misses: u32,
    pub failed: u32,
    pub cancelled: bool,
}

/// What a track came to.
#[derive(Clone, Copy, PartialEq, Eq, Debug, Structural)]
pub enum TrackResult {
    /// Its lyrics are cached, or that it has none to have.
    Hit,
    /// Nobody has its lyrics, or it cannot be asked for.
    Miss,
    /// It is to be tried again.
    Failed,
}

/// The tracks of a prefetch, counted.
#[derive(Clone, Copy, PartialEq, Eq, Debug, Structural)]
pub struct Prefetch {
    pub total: u32,
    pub processed: u32,
    pub hits: u32,
    pub misses: u32,
    pub failed: u32,
}

impl Prefetch {
    /// Every track that is done with is counted once.
    pub open spec fn wf(self) -> bool {
        &&& self.hits + self.misses + self.failed == self.processed
        &&& self.processed <= self.total
    }

    /// The counts with one more track.
    pub open spec fn with(self, result: TrackResult) -> Prefetch {
        Prefetch {
            total: self.total,
            processed: (self.processed + 1) as u32,
            hits: if result == TrackResult::Hit {
                (self.hits + 1) as u32
            } else {
                self.hits
            },
            misses: if result == TrackResult::Miss {
                (self.misses + 1) as u32
            } else {
                self.misses
            },
            failed: if result == TrackResult::Failed {
                (self.failed + 1) as u32
            } else {
                self.failed
            },
        }
    }

    /// A prefetch of so many tracks, with none done.
    pub fn new(pending: usize) -> (p: Prefetch)
        requires
            pending <= u32::MAX,
        ensures
            p.wf(),
            p == (Prefetch { total: pending as u32, processed: 0, hits: 0, misses: 0, failed: 0 }),
    {
        Prefetch { total: pending as u32, processed: 0, hits: 0, misses: 0, failed: 0 }
    }

    /// Count a track.
    pub fn record(&mut self, result: TrackResult)
        requires
            old(self).wf(),
            old(self).processed < old(self).total,
        ensures
            final(self).wf(),
            *final(self) == old(self).with(result),
    {
        self.processed = self.processed + 1;
        match result {
            TrackResult::Hit => {
                self.hits = self.hits + 1;
            },
            TrackResult::Miss => {
                self.misses = self.misses + 1;
            },
            TrackResult::Failed => {
                self.failed = self.failed + 1;
            },
        }
    }

    /// How far it has come, with the title of the track that is next or without.
    pub fn progress(&self, current_title: Option<String>) -> (r: LyricsPrefetchProgress)
        ensures
            r == (LyricsPrefetchProgress {
                processed: self.processed,
                total: self.total,
                hits: self.hits,
                misses: self.misses,
                failed: self.failed,
                current_title,
            }),
    {
        LyricsPrefetchProgress {
            processed: self.processed,
            total: self.total,
            hits: self.hits,
            misses: self.misses,
            failed: self.failed,
            current_title,
        }
    }

    /// What it came to: it was cancelled where tracks are left.
    pub open spec fn told(self) -> LyricsPrefetchSummary {
        LyricsPrefetchSummary {
            processed: self.processed,
            hits: self.hits,
            misses: self.misses,
            failed: self.failed,
            cancelled: self.processed < self.total,
        }
    }

    /// Whether it ends before its next track, and what it then came to: it ends where
    /// it is to stop, or no track is left.
    pub fn ends(&self, cancel: bool) -> (r: Option<LyricsPrefetchSummary>)
        requires
            self.wf(),
        ensures
            r == (if cancel || self.processed == self.total {
                Some(self.told())
            } else {
                None
            }),
    {
        if !cancel && self.processed < self.total {
            return None;
        }
        Some(
            LyricsPrefetchSummary {
                processed: self.processed,
                hits: self.hits,
                misses: self.misses,
                failed: self.failed,
                cancelled: self.processed < self.total,
            },
        )
    }
}

/// How many of the tracks came to this.
pub open spec fn how_many(results: Seq<TrackResult>, result: TrackResult) -> nat
    decreases results.len(),
{
    if results.len() == 0 {
        0
    } else {
        how_many(results.drop_last(), result) + (if results.last() == result {
            1nat
        } else {
            0
        })
    }
}

/// A prefetch of so many tracks, once these are counted.
pub open spec fn counted(total: u32, results: Seq<TrackResult>) -> Prefetch
    decreases results.len(),
{
    if results.len() == 0 {
        Prefetch { total, processed: 0, hits: 0, misses: 0, failed: 0 }
    } else {
        counted(total, results.drop_last()).with(results.last())
    }
}

/// A prefetch tells what each of its tracks came to, and it was cancelled exactly
/// where it ended with tracks left.
pub proof fn a_prefetch_accounts_for_its_tracks(total: u32, results: Seq<TrackResult>)
    requires
        results.len() <= total,
    ensures
        counted(total, results).wf(),
        counted(total, results).total == total,
        counted(total, results).told().processed == results.len(),
        counted(total, results).told().hits == how_many(results, TrackResult::Hit),
        counted(total, results).told().misses == how_many(results, TrackResult::Miss),
        counted(total, results).told().failed == how_many(results, TrackResult::Failed),
        counted(total, results).told().cancelled <==> results.len() < total,
    decreases results.len(),
{
    if results.len() > 0 {
        a_prefetch_accounts_for_its_tracks(total, results.drop_last());
    }
}

/// What is to be done for a track now.
#[derive(Clone, Copy, PartialEq, Eq, Debug, Structural)]
pub enum Step {
    /// Read the lyrics of the file's own tag.
    Embedded,
    /// Read a file beside the track, and the track's description.
    Beside,
    /// Put what was found on this machine into the cache.
    StoreLocal,
    /// Ask Musixmatch for timed words.
    Musixmatch,
    StoreMusixmatch,
    /// Leave the network alone for a while.
    Rest,
    Lrclib,
    StoreLrclib,
    /// Remember that the track has no lyrics to have.
    StoreInstrumental,
    /// Ask the chain of the other providers.
    Chain,
    StoreChain,
    /// Remember that nobody has them.
    StoreMiss,
    /// The track is done with; `rest` says whether the network is then left
    /// alone for a while.
    Done { result: TrackResult, rest: bool },
}

/// What comes of storing an answer.
pub open spec fn after_store(reply: Reply) -> TrackResult {
    if reply is Stored {
        TrackResult::Hit
    } else {
        TrackResult::Failed
    }
}

impl Step {
    /// What LRCLIB's turn is: a track without an artist it cannot be asked for.
    pub open spec fn to_lrclib(artist: bool) -> Step {
        if artist {
            Step::Lrclib
        } else {
            Step::Done { result: TrackResult::Miss, rest: false }
        }
    }

    /// What follows what came back. `artist` says whether the track has one, and
    /// `musixmatch` whether Musixmatch may be asked.
    pub open spec fn after(self, reply: Reply, artist: bool, musixmatch: bool) -> Step {
        match self {
            Step::Embedded => if reply is Found {
                Step::StoreLocal
            } else {
                Step::Beside
            },
            Step::Beside => if reply is Found {
                Step::StoreLocal
            } else {
                Step::Musixmatch
            },
            Step::StoreLocal => Step::Done { result: after_store(reply), rest: false },
            Step::Musixmatch => if reply is Found {
                Step::StoreMusixmatch
            } else if musixmatch {
                Step::Rest
            } else {
                Step::to_lrclib(artist)
            },
            Step::Rest => Step::to_lrclib(artist),
            Step::Lrclib => match reply {
                Reply::Failed => Step::Done { result: TrackResult::Failed, rest: true },
                Reply::Instrumental => Step::StoreInstrumental,
                Reply::Found { .. } => Step::StoreLrclib,
                _ => Step::Chain,
            },
            Step::Chain => match reply {
                Reply::Found { .. } => Step::StoreChain,
                Reply::Nothing => Step::StoreMiss,
                _ => Step::Done { result: TrackResult::Failed, rest: true },
            },
            Step::StoreMusixmatch | Step::StoreLrclib | Step::StoreChain => Step::Done {
                result: after_store(reply),
                rest: true,
            },
            Step::StoreInstrumental => Step::Done { result: TrackResult::Hit, rest: true },
            Step::StoreMiss => Step::Done { result: TrackResult::Miss, rest: true },
            Step::Done { .. } => self,
        }
    }

    /// What follows what came back.
    pub fn next(self, reply: Reply, artist: bool, musixmatch: bool) -> (s: Step)
        ensures
            s == self.after(reply, artist, musixmatch),
    {
        let found = match reply {
            Reply::Found { .. } => true,
            _ => false,
        };
        let stored = match reply {
            Reply::Stored => TrackResult::Hit,
            _ => TrackResult::Failed,
        };
        let lrclib = if artist {
            Step::Lrclib
        } else {
            Step::Done { result: TrackResult::Miss, rest: false }
        };
        match self {
            Step::Embedded => {
                if found {
                    Step::StoreLocal
                } else {
                    Step::Beside
                }
            },
            Step::Beside => {
                if found {
                    Step::StoreLocal
                } else {
                    Step::Musixmatch
                }
            },
            Step::StoreLocal => Step::Done { result: stored, rest: false },
            Step::Musixmatch => {
                if found {
                    Step::StoreMusixmatch
                } else if musixmatch {
                    Step::Rest
                } else {
                    lrclib
                }
            },
            Step::Rest => lrclib,
            Step::Lrclib => match reply {
                Reply::Failed => Step::Done { result: TrackResult::Failed, rest: true },
                Reply::Instrumental => Step::StoreInstrumental,
                Reply::Found { .. } => Step::StoreLrclib,
                _ => Step::Chain,
            },
            Step::Chain => match reply {
                Reply::Found { .. } => Step::StoreChain,
                Reply::Nothing => Step::StoreMiss,
                _ => Step::Done { result: TrackResult::Failed, rest: true },
            },
            Step::StoreMusixmatch => Step::Done { result: stored, rest: true },
            Step::StoreLrclib => Step::Done { result: stored, rest: true },
            Step::StoreChain => Step::Done { result: stored, rest: true },
            Step::StoreInstrumental => Step::Done { result: TrackResult::Hit, rest: true },
            Step::StoreMiss => Step::Done { result: TrackResult::Miss, rest: true },
            Step::Done { result, rest } => Step::Done { result, rest },
        }
    }
}

// What a track comes to, told without the steps.

/// Everything that would come back for a track.
pub struct TrackWorld {
    pub reply: spec_fn(Step) -> Reply,
    pub artist: bool,
    pub musixmatch: bool,
}

impl TrackWorld {
    /// What a track comes to, and whether the network is then left alone.
    pub open spec fn outcome(self) -> (TrackResult, bool) {
        if (self.reply)(Step::Embedded) is Found || (self.reply)(Step::Beside) is Found {
            (after_store((self.reply)(Step::StoreLocal)), false)
        } else if (self.reply)(Step::Musixmatch) is Found {
            (after_store((self.reply)(Step::StoreMusixmatch)), true)
        } else if !self.artist {
            (TrackResult::Miss, false)
        } else {
            match (self.reply)(Step::Lrclib) {
                Reply::Failed => (TrackResult::Failed, true),
                Reply::Instrumental => (TrackResult::Hit, true),
                Reply::Found { .. } => (after_store((self.reply)(Step::StoreLrclib)), true),
                _ => match (self.reply)(Step::Chain) {
                    Reply::Found { .. } => (after_store((self.reply)(Step::StoreChain)), true),
                    Reply::Nothing => (TrackResult::Miss, true),
                    _ => (TrackResult::Failed, true),
                },
            }
        }
    }
}

/// A track some steps on.
pub open spec fn track_run(world: TrackWorld, s: Step, steps: nat) -> Step
    decreases steps,
{
    if steps == 0 || s is Done {
        s
    } else {
        track_run(
            world,
            s.after((world.reply)(s), world.artist, world.musixmatch),
            (steps - 1) as nat,
        )
    }
}

/// A track is done with within seven steps, and comes to what
/// [`TrackWorld::outcome`] tells.
pub proof fn a_track_comes_to_what_is_told(world: TrackWorld)
    ensures
        track_run(world, Step::Embedded, 7) == (Step::Done {
            result: world.outcome().0,
            rest: world.outcome().1,
        }),
{
    reveal_with_fuel(track_run, 8);
}

/// Lyrics on this machine win in a prefetch, whether or not the network otherwise comes
/// first: where there are some, they are what is stored, and nobody on the network is
/// asked.
pub proof fn own_lyrics_win_in_a_prefetch(world: TrackWorld, steps: nat)
    requires
        (world.reply)(Step::Embedded) is Found || (world.reply)(Step::Beside) is Found,
    ensures
        world.outcome() == (after_store((world.reply)(Step::StoreLocal)), false),
        ({
            let s = track_run(world, Step::Embedded, steps);
            s == Step::Embedded || s == Step::Beside || s == Step::StoreLocal || s is Done
        }),
{
    reveal_with_fuel(track_run, 5);
}

/// A negative is remembered only when the providers were asked and had nothing.
pub proof fn a_prefetched_negative_is_confirmed(s: Step, reply: Reply, artist: bool, musixmatch: bool)
    ensures
        s.after(reply, artist, musixmatch) == Step::StoreMiss ==> s == Step::Chain && reply
            == Reply::Nothing,
{
}

// One prefetch at a time.

/// Whether a prefetch is running, and whether it is to stop.
#[derive(Clone, Copy, PartialEq, Eq, Debug, Structural)]
pub struct PrefetchFlags {
    pub running: bool,
    pub cancel: bool,
}

impl PrefetchFlags {
    /// No prefetch is running.
    pub fn new() -> (f: PrefetchFlags)
        ensures
            f == (PrefetchFlags { running: false, cancel: false }),
    {
        PrefetchFlags { running: false, cancel: false }
    }
}

/// Begin a prefetch, unless the network is off or one is running.
pub fn prefetch_library_lyrics(flags: &mut PrefetchFlags, offline: bool) -> (r: Result<(), AppError>)
    ensures
        r is Ok <==> !offline && !old(flags).running,
        r is Ok ==> *final(flags) == (PrefetchFlags { running: true, cancel: false }),
        r is Err ==> *final(flags) == *old(flags),
        r matches Err(e) ==> error::says(
            e,
            if offline {
                "offline mode is enabled"@
            } else {
                "lyrics prefetch already running"@
            },
        ),
{
    if offline {
        return Err(AppError::Other("offline mode is enabled".to_owned()));
    }
    if flags.running {
        return Err(AppError::Other("lyrics prefetch already running".to_owned()));
    }
    *flags = PrefetchFlags { running: true, cancel: false };
    Ok(())
}

/// End a prefetch, however it went.
pub fn end_prefetch(flags: &mut PrefetchFlags)
    ensures
        *final(flags) == (PrefetchFlags { running: false, cancel: false }),
{
    *flags = PrefetchFlags { running: false, cancel: false };
}

/// Have the running prefetch stop before its next track; says whether one was
/// running.
pub fn cancel_lyrics_prefetch(flags: &mut PrefetchFlags) -> (r: bool)
    ensures
        r == old(flags).running,
        *final(flags) == (PrefetchFlags {
            running: old(flags).running,
            cancel: old(flags).running || old(flags).cancel,
        }),
{
    if flags.running {
        flags.cancel = true;
        true
    } else {
        false
    }
}

// What a track of a prefetch comes to, told from what came back.

/// A track whose lyrics are on this machine is done with at once, and the network is not
/// left alone for it.
pub proof fn local_lyrics_are_a_hit(world: TrackWorld)
    requires
        (world.reply)(Step::Embedded) is Found || (world.reply)(Step::Beside) is Found,
    ensures
        (world.reply)(Step::StoreLocal) is Stored ==> track_run(world, Step::Embedded, 7) == (Step::Done {
            result: TrackResult::Hit,
            rest: false,
        }),
        !((world.reply)(Step::StoreLocal) is Stored) ==> track_run(world, Step::Embedded, 7) == (Step::Done {
            result: TrackResult::Failed,
            rest: false,
        }),
{
    a_track_comes_to_what_is_told(world);
}

/// Behind the local sources Musixmatch is asked, and a track without an artist is then
/// missed without LRCLIB being asked.
pub proof fn musixmatch_is_asked_before_lrclib(world: TrackWorld)
    requires
        !((world.reply)(Step::Embedded) is Found),
        !((world.reply)(Step::Beside) is Found),
    ensures
        (world.reply)(Step::Musixmatch) is Found && (world.reply)(Step::StoreMusixmatch) is Stored
            ==> track_run(world, Step::Embedded, 7) == (Step::Done { result: TrackResult::Hit, rest: true }),
        (world.reply)(Step::Musixmatch) is Found && !((world.reply)(
            Step::StoreMusixmatch,
        ) is Stored) ==> track_run(world, Step::Embedded, 7) == (Step::Done { result: TrackResult::Failed, rest: true }),
        !((world.reply)(Step::Musixmatch) is Found) && !world.artist ==> track_run(world, Step::Embedded, 7) == (Step::Done {
            result: TrackResult::Miss,
            rest: false,
        }),
{
    a_track_comes_to_what_is_told(world);
}

/// LRCLIB's lyrics are a hit, and so is its word that there are none to have; its failure
/// is the track's. Where it has nothing the chain decides: what it finds is a hit, that it
/// has nothing is a miss, and anything else is to be tried again.
pub proof fn lrclib_and_the_chain_decide(world: TrackWorld)
    requires
        !((world.reply)(Step::Embedded) is Found),
        !((world.reply)(Step::Beside) is Found),
        !((world.reply)(Step::Musixmatch) is Found),
        world.artist,
    ensures
        (world.reply)(Step::Lrclib) is Found && (world.reply)(Step::StoreLrclib) is Stored ==> track_run(world, Step::Embedded, 7)
            == (Step::Done { result: TrackResult::Hit, rest: true }),
        (world.reply)(Step::Lrclib) is Instrumental ==> track_run(world, Step::Embedded, 7) == (Step::Done {
            result: TrackResult::Hit,
            rest: true,
        }),
        (world.reply)(Step::Lrclib) is Failed ==> track_run(world, Step::Embedded, 7) == (Step::Done {
            result: TrackResult::Failed,
            rest: true,
        }),
        (world.reply)(Step::Lrclib) is Nothing ==> {
            &&& (world.reply)(Step::Chain) is Found && (world.reply)(Step::StoreChain) is Stored
                ==> track_run(world, Step::Embedded, 7) == (Step::Done { result: TrackResult::Hit, rest: true })
            &&& (world.reply)(Step::Chain) is Nothing ==> track_run(world, Step::Embedded, 7) == (Step::Done {
                result: TrackResult::Miss,
                rest: true,
            })
            &&& (world.reply)(Step::Chain) is Failed || (world.reply)(Step::Chain) is Unavailable
                ==> track_run(world, Step::Embedded, 7) == (Step::Done { result: TrackResult::Failed, rest: true })
        },
{
    a_track_comes_to_what_is_told(world);
}

/// The network is left alone after Musixmatch was asked, and before LRCLIB is.
pub proof fn the_network_rests_after_musixmatch(reply: Reply, artist: bool)
    requires
        !(reply is Found),
    ensures
        Step::Musixmatch.after(reply, artist, true) == Step::Rest,
        artist ==> Step::Rest.after(reply, artist, true) == Step::Lrclib,
        artist ==> Step::Musixmatch.after(reply, artist, false) == Step::Lrclib,
{
}

/// A track that is counted goes into the counter of what it came to, and into no other.
pub proof fn a_track_goes_into_its_counter(p: Prefetch, result: TrackResult)
    requires
        p.processed < u32::MAX && p.hits < u32::MAX && p.misses < u32::MAX && p.failed < u32::MAX,
    ensures
        p.with(result).processed == p.processed + 1,
        p.with(result).total == p.total,
        p.with(result).hits == p.hits + (if result == TrackResult::Hit {
            1int
        } else {
            0
        }),
        p.with(result).misses == p.misses + (if result == TrackResult::Miss {
            1int
        } else {
            0
        }),
        p.with(result).failed == p.failed + (if result == TrackResult::Failed {
            1int
        } else {
            0
        }),
        p.told().processed == p.processed && p.told().hits == p.hits && p.told().misses == p.misses
            && p.told().failed == p.failed,
        p.told().cancelled <==> p.processed < p.total,
{
}

} // verus!
