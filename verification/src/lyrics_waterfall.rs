//! Who is asked for a track's lyrics, in which order, and whose answer stands.
//!
//! The sources are asked one at a time, and what is asked next depends on what
//! came back. [`Waterfall`] decides; whoever holds one does the asking and says
//! what came back.

use vstd::prelude::*;

verus! {

/// Whose answer stands.
#[derive(Clone, Copy, PartialEq, Eq, Debug, Structural)]
pub enum Tier {
    /// What was cached already.
    Cache,
    /// The track's own tag, a file beside it, or its description.
    Local,
    /// A plugin.
    Plugin,
    /// Musixmatch, with timed words.
    Musixmatch,
    /// LRCLIB's lyrics.
    Lrclib,
    /// LRCLIB's word that there are no lyrics to have.
    Instrumental,
    /// The chain of the other providers.
    Chain,
    /// Nobody's: that everyone was asked and had nothing.
    Miss,
}

/// What is to be asked or done.
#[derive(Clone, Copy, PartialEq, Eq, Debug, Structural)]
pub enum Ask {
    Cache,
    /// What is known of the track.
    Track,
    /// Whether the network comes before the user's own files.
    Preference,
    /// The local sources; what they have is put into the cache at once.
    Local,
    /// The plugins; the first usable answer is put into the cache at once.
    Plugins,
    Musixmatch,
    Lrclib,
    Chain,
    /// The answer of this tier is to be put into the cache.
    Store(Tier),
    /// The plugin's answer is to be put into the cache again.
    StoreHeld,
}

/// What came back.
#[derive(Clone, Copy, PartialEq, Eq, Debug, Structural)]
pub enum Reply {
    /// The asking failed.
    Failed,
    /// There is nothing: asked, and had nothing.
    Nothing,
    /// There is an answer; `synced` says whether it can be followed line by line.
    Found { synced: bool },
    /// Only of [`Ask::Lrclib`]: there are no lyrics to have.
    Instrumental,
    /// Only of [`Ask::Chain`]: nobody could be asked.
    Unavailable,
    /// Only of [`Ask::Track`]: the track is known, and whether its artist is.
    Track { artist: bool },
    /// Only of [`Ask::Preference`].
    Prefer { network: bool },
    /// Only of [`Ask::Store`] and [`Ask::StoreHeld`].
    Stored,
}

/// How it ended.
#[derive(Clone, Copy, PartialEq, Eq, Debug, Structural)]
pub enum Verdict {
    /// This tier's answer stands.
    Answer(Tier),
    /// There is no answer, and none is remembered.
    Nothing,
    /// The asking failed, with the failure of the last thing asked.
    Failed,
}

/// Whether a reply is one that can come back.
pub open spec fn fits(ask: Ask, reply: Reply) -> bool {
    match reply {
        Reply::Failed => true,
        Reply::Nothing => !(ask is Preference || ask is Store || ask is StoreHeld),
        Reply::Found { .. } => ask is Cache || ask is Local || ask is Plugins || ask is Musixmatch
            || ask is Lrclib || ask is Chain,
        Reply::Instrumental => ask is Lrclib,
        Reply::Unavailable => ask is Chain,
        Reply::Track { .. } => ask is Track,
        Reply::Prefer { .. } => ask is Preference,
        Reply::Stored => ask is Store || ask is StoreHeld,
    }
}

/// What is still owed once the local sources, asked last, have nothing.
#[derive(Clone, Copy, PartialEq, Eq, Debug, Structural)]
pub enum Owed {
    /// No answer.
    Nothing,
    /// That there are no lyrics to have.
    Instrumental,
    /// That everyone had nothing.
    Miss,
}

/// A lookup that is under way.
#[derive(Clone, Copy, PartialEq, Eq, Debug, Structural)]
pub struct Waterfall {
    /// What is to be asked now; nothing once it has ended.
    pub ask: Option<Ask>,
    /// How it ended, once it has.
    pub verdict: Verdict,
    pub artist: bool,
    /// Whether the network comes before the local sources.
    pub prefer_network: bool,
    /// Whether a plugin's answer that cannot be followed is kept back.
    pub held: bool,
    /// Whether the answer that is being stored can be followed.
    pub synced: bool,
    pub owed: Owed,
}

impl Waterfall {
    /// A lookup that is to ask this next.
    pub open spec fn asking(self, ask: Ask) -> Waterfall {
        Waterfall { ask: Some(ask), ..self }
    }

    /// A lookup that has ended.
    pub open spec fn ended(self, verdict: Verdict) -> Waterfall {
        Waterfall { ask: None, verdict, ..self }
    }

    /// What follows once the sources behind the plugins have come to this. A
    /// plugin's answer that was kept back gives way to one that can be followed,
    /// and to nothing else.
    pub open spec fn settled(self, verdict: Verdict, synced: bool) -> Waterfall {
        if self.held && !(verdict is Answer && synced) {
            self.asking(Ask::StoreHeld)
        } else {
            self.ended(verdict)
        }
    }

    /// What follows when the network has nothing more to say: the local sources,
    /// where they were put off, and then what is owed.
    pub open spec fn at_last(self, owed: Owed) -> Waterfall {
        if self.prefer_network {
            Waterfall { owed, ..self }.asking(Ask::Local)
        } else {
            self.paid(owed)
        }
    }

    /// What follows when the local sources have nothing either, or were asked
    /// at the start.
    pub open spec fn paid(self, owed: Owed) -> Waterfall {
        match owed {
            Owed::Nothing => self.settled(Verdict::Nothing, false),
            Owed::Instrumental => Waterfall { synced: false, ..self }.asking(
                Ask::Store(Tier::Instrumental),
            ),
            Owed::Miss => Waterfall { synced: false, ..self }.asking(Ask::Store(Tier::Miss)),
        }
    }

    /// What follows the plugins.
    pub open spec fn after_plugins(self, offline: bool) -> Waterfall {
        if offline {
            self.at_last(Owed::Nothing)
        } else {
            self.asking(Ask::Musixmatch)
        }
    }

    /// What follows the local sources, asked first.
    pub open spec fn after_local(self, offline: bool) -> Waterfall {
        if offline {
            self.after_plugins(true)
        } else {
            self.asking(Ask::Plugins)
        }
    }

    /// What follows Musixmatch.
    pub open spec fn after_musixmatch(self, offline: bool) -> Waterfall {
        if offline || !self.artist {
            self.at_last(Owed::Nothing)
        } else {
            self.asking(Ask::Lrclib)
        }
    }

    /// What follows a reply. `offline` says whether the network is off when it
    /// comes.
    pub open spec fn after(self, reply: Reply, offline: bool) -> Waterfall {
        match self.ask {
            None => self,
            Some(Ask::Cache) => match reply {
                Reply::Failed => self.ended(Verdict::Failed),
                Reply::Found { .. } => self.ended(Verdict::Answer(Tier::Cache)),
                _ => self.asking(Ask::Track),
            },
            Some(Ask::Track) => match reply {
                Reply::Failed => self.ended(Verdict::Failed),
                Reply::Track { artist } => Waterfall { artist, ..self }.asking(Ask::Preference),
                _ => self.ended(Verdict::Nothing),
            },
            Some(Ask::Preference) => match reply {
                Reply::Prefer { network } => if network {
                    Waterfall { prefer_network: true, ..self }.after_local(offline)
                } else {
                    self.asking(Ask::Local)
                },
                _ => self.ended(Verdict::Failed),
            },
            Some(Ask::Local) => if self.prefer_network {
                match reply {
                    Reply::Failed => self.settled(Verdict::Failed, false),
                    Reply::Found { synced } => self.settled(Verdict::Answer(Tier::Local), synced),
                    _ => self.paid(self.owed),
                }
            } else {
                match reply {
                    Reply::Failed => self.ended(Verdict::Failed),
                    Reply::Found { .. } => self.ended(Verdict::Answer(Tier::Local)),
                    _ => self.after_local(offline),
                }
            },
            Some(Ask::Plugins) => match reply {
                Reply::Failed => self.ended(Verdict::Failed),
                Reply::Found { synced } => if synced {
                    self.ended(Verdict::Answer(Tier::Plugin))
                } else {
                    Waterfall { held: true, ..self }.after_plugins(offline)
                },
                _ => self.after_plugins(offline),
            },
            Some(Ask::Musixmatch) => match reply {
                Reply::Found { synced } => Waterfall { synced, ..self }.asking(
                    Ask::Store(Tier::Musixmatch),
                ),
                _ => self.after_musixmatch(offline),
            },
            Some(Ask::Lrclib) => match reply {
                Reply::Failed => self.settled(Verdict::Failed, false),
                Reply::Found { synced } => Waterfall { synced, ..self }.asking(
                    Ask::Store(Tier::Lrclib),
                ),
                Reply::Instrumental => self.at_last(Owed::Instrumental),
                _ => self.asking(Ask::Chain),
            },
            Some(Ask::Chain) => match reply {
                Reply::Found { synced } => Waterfall { synced, ..self }.asking(
                    Ask::Store(Tier::Chain),
                ),
                Reply::Nothing => self.at_last(Owed::Miss),
                _ => self.at_last(Owed::Nothing),
            },
            Some(Ask::Store(tier)) => match reply {
                Reply::Stored => self.settled(Verdict::Answer(tier), self.synced),
                _ => self.settled(Verdict::Failed, false),
            },
            Some(Ask::StoreHeld) => match reply {
                Reply::Stored => self.ended(Verdict::Answer(Tier::Plugin)),
                _ => self.ended(Verdict::Failed),
            },
        }
    }

    /// The start of a lookup.
    pub open spec fn start() -> Waterfall {
        Waterfall {
            ask: Some(Ask::Cache),
            verdict: Verdict::Nothing,
            artist: false,
            prefer_network: false,
            held: false,
            synced: false,
            owed: Owed::Nothing,
        }
    }

    /// A lookup that is about to begin.
    pub fn begin() -> (w: Waterfall)
        ensures
            w == Waterfall::start(),
    {
        Waterfall {
            ask: Some(Ask::Cache),
            verdict: Verdict::Nothing,
            artist: false,
            prefer_network: false,
            held: false,
            synced: false,
            owed: Owed::Nothing,
        }
    }

    fn go(self, ask: Ask) -> (w: Waterfall)
        ensures
            w == self.asking(ask),
    {
        Waterfall { ask: Some(ask), ..self }
    }

    fn end(self, verdict: Verdict) -> (w: Waterfall)
        ensures
            w == self.ended(verdict),
    {
        Waterfall { ask: None, verdict, ..self }
    }

    fn settle(self, verdict: Verdict, synced: bool) -> (w: Waterfall)
        ensures
            w == self.settled(verdict, synced),
    {
        let stands = match verdict {
            Verdict::Answer(_) => synced,
            _ => false,
        };
        if self.held && !stands {
            self.go(Ask::StoreHeld)
        } else {
            self.end(verdict)
        }
    }

    fn pay(self, owed: Owed) -> (w: Waterfall)
        ensures
            w == self.paid(owed),
    {
        match owed {
            Owed::Nothing => self.settle(Verdict::Nothing, false),
            Owed::Instrumental => Waterfall { synced: false, ..self }.go(
                Ask::Store(Tier::Instrumental),
            ),
            Owed::Miss => Waterfall { synced: false, ..self }.go(Ask::Store(Tier::Miss)),
        }
    }

    fn last(self, owed: Owed) -> (w: Waterfall)
        ensures
            w == self.at_last(owed),
    {
        if self.prefer_network {
            Waterfall { owed, ..self }.go(Ask::Local)
        } else {
            self.pay(owed)
        }
    }

    fn past_plugins(self, offline: bool) -> (w: Waterfall)
        ensures
            w == self.after_plugins(offline),
    {
        if offline {
            self.last(Owed::Nothing)
        } else {
            self.go(Ask::Musixmatch)
        }
    }

    fn past_local(self, offline: bool) -> (w: Waterfall)
        ensures
            w == self.after_local(offline),
    {
        if offline {
            self.past_plugins(true)
        } else {
            self.go(Ask::Plugins)
        }
    }

    /// What follows a reply. `offline` says whether the network is off when it
    /// comes.
    pub fn next(self, reply: Reply, offline: bool) -> (w: Waterfall)
        ensures
            w == self.after(reply, offline),
    {
        let ask = match self.ask {
            None => return self,
            Some(ask) => ask,
        };
        match ask {
            Ask::Cache => match reply {
                Reply::Failed => self.end(Verdict::Failed),
                Reply::Found { .. } => self.end(Verdict::Answer(Tier::Cache)),
                _ => self.go(Ask::Track),
            },
            Ask::Track => match reply {
                Reply::Failed => self.end(Verdict::Failed),
                Reply::Track { artist } => Waterfall { artist, ..self }.go(Ask::Preference),
                _ => self.end(Verdict::Nothing),
            },
            Ask::Preference => match reply {
                Reply::Prefer { network } => {
                    if network {
                        Waterfall { prefer_network: true, ..self }.past_local(offline)
                    } else {
                        self.go(Ask::Local)
                    }
                },
                _ => self.end(Verdict::Failed),
            },
            Ask::Local => {
                if self.prefer_network {
                    match reply {
                        Reply::Failed => self.settle(Verdict::Failed, false),
                        Reply::Found { synced } => self.settle(
                            Verdict::Answer(Tier::Local),
                            synced,
                        ),
                        _ => self.pay(self.owed),
                    }
                } else {
                    match reply {
                        Reply::Failed => self.end(Verdict::Failed),
                        Reply::Found { .. } => self.end(Verdict::Answer(Tier::Local)),
                        _ => self.past_local(offline),
                    }
                }
            },
            Ask::Plugins => match reply {
                Reply::Failed => self.end(Verdict::Failed),
                Reply::Found { synced } => {
                    if synced {
                        self.end(Verdict::Answer(Tier::Plugin))
                    } else {
                        Waterfall { held: true, ..self }.past_plugins(offline)
                    }
                },
                _ => self.past_plugins(offline),
            },
            Ask::Musixmatch => match reply {
                Reply::Found { synced } => Waterfall { synced, ..self }.go(
                    Ask::Store(Tier::Musixmatch),
                ),
                _ => {
                    if offline || !self.artist {
                        self.last(Owed::Nothing)
                    } else {
                        self.go(Ask::Lrclib)
                    }
                },
            },
            Ask::Lrclib => match reply {
                Reply::Failed => self.settle(Verdict::Failed, false),
                Reply::Found { synced } => Waterfall { synced, ..self }.go(
                    Ask::Store(Tier::Lrclib),
                ),
                Reply::Instrumental => self.last(Owed::Instrumental),
                _ => self.go(Ask::Chain),
            },
            Ask::Chain => match reply {
                Reply::Found { synced } => Waterfall { synced, ..self }.go(
                    Ask::Store(Tier::Chain),
                ),
                Reply::Nothing => self.last(Owed::Miss),
                _ => self.last(Owed::Nothing),
            },
            Ask::Store(tier) => match reply {
                Reply::Stored => self.settle(Verdict::Answer(tier), self.synced),
                _ => self.settle(Verdict::Failed, false),
            },
            Ask::StoreHeld => match reply {
                Reply::Stored => self.end(Verdict::Answer(Tier::Plugin)),
                _ => self.end(Verdict::Failed),
            },
        }
    }
}

// How a lookup ends, told without its steps.

/// Everything that would come back: the reply to each thing that may be asked,
/// and whether the network is off when that reply comes.
pub struct World {
    pub reply: spec_fn(Ask) -> Reply,
    pub offline: spec_fn(Ask) -> bool,
}

/// An end, and whether it is an answer that can be followed.
pub struct Outcome {
    pub verdict: Verdict,
    pub synced: bool,
}

impl World {
    /// Whether every reply is one that can come back.
    pub open spec fn fits(self) -> bool {
        forall|ask: Ask| fits(ask, #[trigger] (self.reply)(ask))
    }

    /// What comes of an answer off the network that is to be stored.
    pub open spec fn stored(self, tier: Tier, synced: bool) -> Outcome {
        if (self.reply)(Ask::Store(tier)) is Stored {
            Outcome { verdict: Verdict::Answer(tier), synced }
        } else {
            Outcome { verdict: Verdict::Failed, synced: false }
        }
    }

    /// What comes of the local sources where they were put off, and of something
    /// else where they were not or have nothing.
    pub open spec fn local_or(self, put_off: bool, otherwise: Outcome) -> Outcome {
        if put_off {
            match (self.reply)(Ask::Local) {
                Reply::Failed => Outcome { verdict: Verdict::Failed, synced: false },
                Reply::Found { synced } => Outcome {
                    verdict: Verdict::Answer(Tier::Local),
                    synced,
                },
                _ => otherwise,
            }
        } else {
            otherwise
        }
    }

    /// What comes of the sources behind the plugins.
    pub open spec fn behind_plugins(self, put_off: bool, artist: bool, offline: bool) -> Outcome {
        let nothing = Outcome { verdict: Verdict::Nothing, synced: false };
        if offline {
            self.local_or(put_off, nothing)
        } else if (self.reply)(Ask::Musixmatch) is Found {
            self.stored(Tier::Musixmatch, (self.reply)(Ask::Musixmatch)->synced)
        } else if (self.offline)(Ask::Musixmatch) || !artist {
            self.local_or(put_off, nothing)
        } else {
            match (self.reply)(Ask::Lrclib) {
                Reply::Failed => Outcome { verdict: Verdict::Failed, synced: false },
                Reply::Found { synced } => self.stored(Tier::Lrclib, synced),
                Reply::Instrumental => self.local_or(
                    put_off,
                    self.stored(Tier::Instrumental, false),
                ),
                _ => match (self.reply)(Ask::Chain) {
                    Reply::Found { synced } => self.stored(Tier::Chain, synced),
                    Reply::Nothing => self.local_or(put_off, self.stored(Tier::Miss, false)),
                    _ => self.local_or(put_off, nothing),
                },
            }
        }
    }

    /// What comes of the plugins and of the sources behind them.
    pub open spec fn from_plugins(self, put_off: bool, artist: bool, offline: bool) -> Verdict {
        if offline {
            self.behind_plugins(put_off, artist, true).verdict
        } else {
            let behind = self.behind_plugins(put_off, artist, (self.offline)(Ask::Plugins));
            match (self.reply)(Ask::Plugins) {
                Reply::Failed => Verdict::Failed,
                Reply::Found { synced } => if synced {
                    Verdict::Answer(Tier::Plugin)
                } else if behind.verdict is Answer && behind.synced {
                    behind.verdict
                } else if (self.reply)(Ask::StoreHeld) is Stored {
                    Verdict::Answer(Tier::Plugin)
                } else {
                    Verdict::Failed
                },
                _ => behind.verdict,
            }
        }
    }

    /// Whether nothing is cached for a track that is known.
    pub open spec fn must_look(self) -> bool {
        &&& (self.reply)(Ask::Cache) is Nothing
        &&& (self.reply)(Ask::Track) is Track
        &&& (self.reply)(Ask::Preference) is Prefer
    }

    /// Whether the network comes before the local sources.
    pub open spec fn network_first(self) -> bool {
        (self.reply)(Ask::Preference)->network
    }

    /// How a lookup ends.
    pub open spec fn verdict(self) -> Verdict {
        if (self.reply)(Ask::Cache) is Failed {
            Verdict::Failed
        } else if (self.reply)(Ask::Cache) is Found {
            Verdict::Answer(Tier::Cache)
        } else if (self.reply)(Ask::Track) is Failed {
            Verdict::Failed
        } else if (self.reply)(Ask::Track) is Nothing {
            Verdict::Nothing
        } else if (self.reply)(Ask::Preference) is Failed {
            Verdict::Failed
        } else {
            let artist = (self.reply)(Ask::Track)->artist;
            if self.network_first() {
                self.from_plugins(true, artist, (self.offline)(Ask::Preference))
            } else {
                match (self.reply)(Ask::Local) {
                    Reply::Failed => Verdict::Failed,
                    Reply::Found { .. } => Verdict::Answer(Tier::Local),
                    _ => self.from_plugins(false, artist, (self.offline)(Ask::Local)),
                }
            }
        }
    }
}

/// A lookup some steps on.
pub open spec fn run(world: World, w: Waterfall, steps: nat) -> Waterfall
    decreases steps,
{
    match w.ask {
        None => w,
        Some(ask) => if steps == 0 {
            w
        } else {
            run(world, w.after((world.reply)(ask), (world.offline)(ask)), (steps - 1) as nat)
        },
    }
}

proof fn lemma_held(world: World, w: Waterfall, verdict: Verdict, synced: bool, steps: nat)
    requires
        world.fits(),
        steps >= 1,
    ensures
        run(world, w.settled(verdict, synced), steps).ask is None,
        run(world, w.settled(verdict, synced), steps).verdict == (if w.held && !(verdict is Answer
            && synced) {
            if (world.reply)(Ask::StoreHeld) is Stored {
                Verdict::Answer(Tier::Plugin)
            } else {
                Verdict::Failed
            }
        } else {
            verdict
        }),
{
    reveal_with_fuel(run, 2);
    assert(fits(Ask::StoreHeld, (world.reply)(Ask::StoreHeld)));
}

/// What an end behind the plugins becomes.
spec fn weighed(world: World, held: bool, behind: Outcome) -> Verdict {
    if held && !(behind.verdict is Answer && behind.synced) {
        if (world.reply)(Ask::StoreHeld) is Stored {
            Verdict::Answer(Tier::Plugin)
        } else {
            Verdict::Failed
        }
    } else {
        behind.verdict
    }
}

proof fn lemma_store(world: World, w: Waterfall, tier: Tier, steps: nat)
    requires
        world.fits(),
        w.ask == Some(Ask::Store(tier)),
        steps >= 2,
    ensures
        run(world, w, steps).ask is None,
        run(world, w, steps).verdict == weighed(world, w.held, world.stored(tier, w.synced)),
{
    reveal_with_fuel(run, 2);
    let ask = Ask::Store(tier);
    assert(fits(ask, (world.reply)(ask)));
    if (world.reply)(ask) is Stored {
        lemma_held(world, w, Verdict::Answer(tier), w.synced, (steps - 1) as nat);
    } else {
        lemma_held(world, w, Verdict::Failed, false, (steps - 1) as nat);
    }
}

/// What is owed, once it is paid.
spec fn owed_outcome(world: World, owed: Owed) -> Outcome {
    match owed {
        Owed::Nothing => Outcome { verdict: Verdict::Nothing, synced: false },
        Owed::Instrumental => world.stored(Tier::Instrumental, false),
        Owed::Miss => world.stored(Tier::Miss, false),
    }
}

proof fn lemma_paid(world: World, w: Waterfall, owed: Owed, steps: nat)
    requires
        world.fits(),
        steps >= 2,
    ensures
        run(world, w.paid(owed), steps).ask is None,
        run(world, w.paid(owed), steps).verdict == weighed(
            world,
            w.held,
            owed_outcome(world, owed),
        ),
{
    match owed {
        Owed::Nothing => {
            lemma_held(world, w, Verdict::Nothing, false, steps);
        },
        Owed::Instrumental => {
            lemma_store(world, w.paid(owed), Tier::Instrumental, steps);
        },
        Owed::Miss => {
            lemma_store(world, w.paid(owed), Tier::Miss, steps);
        },
    }
}

proof fn lemma_at_last(world: World, w: Waterfall, owed: Owed, steps: nat)
    requires
        world.fits(),
        steps >= 3,
    ensures
        run(world, w.at_last(owed), steps).ask is None,
        run(world, w.at_last(owed), steps).verdict == weighed(
            world,
            w.held,
            world.local_or(w.prefer_network, owed_outcome(world, owed)),
        ),
{
    if w.prefer_network {
        let s = w.at_last(owed);
        reveal_with_fuel(run, 2);
        let r = (world.reply)(Ask::Local);
        assert(fits(Ask::Local, r));
        match r {
            Reply::Failed => {
                lemma_held(world, s, Verdict::Failed, false, (steps - 1) as nat);
            },
            Reply::Found { synced } => {
                lemma_held(world, s, Verdict::Answer(Tier::Local), synced, (steps - 1) as nat);
            },
            _ => {
                lemma_paid(world, s, owed, (steps - 1) as nat);
            },
        }
    } else {
        lemma_paid(world, w, owed, steps);
    }
}

proof fn lemma_chain(world: World, w: Waterfall, steps: nat)
    requires
        world.fits(),
        w.ask == Some(Ask::Chain),
        steps >= 4,
    ensures
        run(world, w, steps).ask is None,
        run(world, w, steps).verdict == weighed(
            world,
            w.held,
            match (world.reply)(Ask::Chain) {
                Reply::Found { synced } => world.stored(Tier::Chain, synced),
                Reply::Nothing => world.local_or(
                    w.prefer_network,
                    world.stored(Tier::Miss, false),
                ),
                _ => world.local_or(w.prefer_network, owed_outcome(world, Owed::Nothing)),
            },
        ),
{
    let r = (world.reply)(Ask::Chain);
    assert(fits(Ask::Chain, r));
    let n = (steps - 1) as nat;
    match r {
        Reply::Found { synced } => {
            lemma_store(world, w.after(r, (world.offline)(Ask::Chain)), Tier::Chain, n);
        },
        Reply::Nothing => {
            lemma_at_last(world, w, Owed::Miss, n);
        },
        _ => {
            lemma_at_last(world, w, Owed::Nothing, n);
        },
    }
}

proof fn lemma_behind(world: World, w: Waterfall, offline: bool, steps: nat)
    requires
        world.fits(),
        steps >= 6,
    ensures
        run(world, w.after_plugins(offline), steps).ask is None,
        run(world, w.after_plugins(offline), steps).verdict == weighed(
            world,
            w.held,
            world.behind_plugins(w.prefer_network, w.artist, offline),
        ),
{
    if offline {
        lemma_at_last(world, w, Owed::Nothing, steps);
    } else {
        let s = w.after_plugins(offline);
        let r = (world.reply)(Ask::Musixmatch);
        assert(fits(Ask::Musixmatch, r));
        let off = (world.offline)(Ask::Musixmatch);
        let n = (steps - 1) as nat;
        let t = s.after(r, off);
        assert(run(world, s, steps) == run(world, t, n));
        if r is Found {
            lemma_store(world, t, Tier::Musixmatch, n);
        } else if off || !w.artist {
            lemma_at_last(world, s, Owed::Nothing, n);
        } else {
            let l = (world.reply)(Ask::Lrclib);
            assert(fits(Ask::Lrclib, l));
            let m = (n - 1) as nat;
            let u = t.after(l, (world.offline)(Ask::Lrclib));
            assert(run(world, t, n) == run(world, u, m));
            match l {
                Reply::Failed => {
                    lemma_held(world, t, Verdict::Failed, false, m);
                },
                Reply::Found { synced } => {
                    lemma_store(world, u, Tier::Lrclib, m);
                },
                Reply::Instrumental => {
                    lemma_at_last(world, t, Owed::Instrumental, m);
                },
                _ => {
                    lemma_chain(world, u, m);
                },
            }
        }
    }
}

proof fn lemma_from_plugins(world: World, w: Waterfall, offline: bool, steps: nat)
    requires
        world.fits(),
        !w.held,
        steps >= 7,
    ensures
        run(world, w.after_local(offline), steps).ask is None,
        run(world, w.after_local(offline), steps).verdict == world.from_plugins(
            w.prefer_network,
            w.artist,
            offline,
        ),
{
    if offline {
        lemma_behind(world, w, true, steps);
    } else {
        let s = w.after_local(offline);
        let r = (world.reply)(Ask::Plugins);
        assert(fits(Ask::Plugins, r));
        let off = (world.offline)(Ask::Plugins);
        let n = (steps - 1) as nat;
        assert(run(world, s, steps) == run(world, s.after(r, off), n));
        match r {
            Reply::Failed => {},
            Reply::Found { synced } => {
                if !synced {
                    lemma_behind(world, Waterfall { held: true, ..s }, off, n);
                }
            },
            _ => {
                lemma_behind(world, s, off, n);
            },
        }
    }
}

/// A lookup ends within eleven steps, and as [`World::verdict`] tells.
pub proof fn a_lookup_ends_as_told(world: World)
    requires
        world.fits(),
    ensures
        run(world, Waterfall::start(), 11).ask is None,
        run(world, Waterfall::start(), 11).verdict == world.verdict(),
{
    reveal_with_fuel(run, 5);
    let s = Waterfall::start();
    assert(fits(Ask::Cache, (world.reply)(Ask::Cache)));
    assert(fits(Ask::Track, (world.reply)(Ask::Track)));
    assert(fits(Ask::Preference, (world.reply)(Ask::Preference)));
    assert(fits(Ask::Local, (world.reply)(Ask::Local)));
    let s1 = s.after((world.reply)(Ask::Cache), (world.offline)(Ask::Cache));
    if s1.ask is Some {
        let s2 = s1.after((world.reply)(Ask::Track), (world.offline)(Ask::Track));
        if s2.ask is Some {
            let r = (world.reply)(Ask::Preference);
            let off = (world.offline)(Ask::Preference);
            let s3 = s2.after(r, off);
            if r is Prefer {
                if r->network {
                    lemma_from_plugins(
                        world,
                        Waterfall { prefer_network: true, ..s2 },
                        off,
                        8,
                    );
                } else {
                    let off = (world.offline)(Ask::Local);
                    lemma_from_plugins(world, s3, off, 7);
                }
            }
        }
    }
}

/// By default what the user's own files hold is the answer.
pub proof fn own_lyrics_win_by_default(world: World)
    requires
        world.must_look(),
        !world.network_first(),
        (world.reply)(Ask::Local) is Found,
    ensures
        world.verdict() == Verdict::Answer(Tier::Local),
{
}

/// Putting the network first never hides lyrics that the user's own files hold:
/// the lookup does not end with nothing, nor with a remembered negative.
pub proof fn the_network_first_hides_no_lyrics(world: World)
    requires
        world.must_look(),
        world.network_first(),
        (world.reply)(Ask::Local) is Found,
    ensures
        world.verdict() != Verdict::Nothing,
        world.verdict() != Verdict::Answer(Tier::Miss),
        world.verdict() != Verdict::Answer(Tier::Instrumental),
{
}

/// A negative is remembered only when the providers were asked and had nothing:
/// never for a failure, and never while nobody could be asked.
pub proof fn only_a_confirmed_negative_is_remembered(world: World)
    requires
        world.fits(),
    ensures
        world.verdict() == Verdict::Answer(Tier::Miss) ==> (world.reply)(Ask::Chain) is Nothing,
        world.verdict() == Verdict::Answer(Tier::Instrumental) ==> (world.reply)(
            Ask::Lrclib,
        ) is Instrumental,
{
}

/// A plugin's answer gives way only to one that can be followed where its own
/// cannot.
pub proof fn only_timed_lyrics_displace_a_plugin(world: World, tier: Tier)
    requires
        world.fits(),
        world.must_look(),
        world.network_first() || (world.reply)(Ask::Local) is Nothing,
        !(world.offline)(if world.network_first() {
            Ask::Preference
        } else {
            Ask::Local
        }),
        (world.reply)(Ask::Plugins) is Found,
        world.verdict() == Verdict::Answer(tier),
        tier != Tier::Plugin,
    ensures
        (world.reply)(Ask::Plugins) == (Reply::Found { synced: false }),
        tier != Tier::Miss,
        tier != Tier::Instrumental,
        tier == Tier::Local ==> (world.reply)(Ask::Local) == (Reply::Found { synced: true }),
        tier == Tier::Musixmatch ==> (world.reply)(Ask::Musixmatch) == (Reply::Found {
            synced: true,
        }),
        tier == Tier::Lrclib ==> (world.reply)(Ask::Lrclib) == (Reply::Found { synced: true }),
        tier == Tier::Chain ==> (world.reply)(Ask::Chain) == (Reply::Found { synced: true }),
{
}

/// While the network is off neither a plugin nor Musixmatch nor LRCLIB is asked.
pub proof fn offline_nobody_is_asked(w: Waterfall, reply: Reply)
    requires
        w.ask is Some,
    ensures
        w.after(reply, true).ask != Some(Ask::Plugins),
        w.after(reply, true).ask != Some(Ask::Musixmatch),
        w.after(reply, true).ask != Some(Ask::Lrclib),
{
}

// Whose answer stands, told from what came back.

/// What is cached is the answer, and nothing else is asked. Where the cache, the track or
/// the preference cannot be read the lookup fails, and a track that is not there has no
/// lyrics.
pub proof fn the_cache_comes_first(world: World)
    requires
        world.fits(),
    ensures
        (world.reply)(Ask::Cache) is Found ==> run(world, Waterfall::start(), 11).verdict == Verdict::Answer(Tier::Cache),
        (world.reply)(Ask::Cache) is Found ==> run(world, Waterfall::start(), 1).ask is None,
        (world.reply)(Ask::Cache) is Failed ==> run(world, Waterfall::start(), 11).verdict == Verdict::Failed,
        (world.reply)(Ask::Cache) is Nothing && (world.reply)(Ask::Track) is Nothing ==> run(world, Waterfall::start(), 11).verdict
            == Verdict::Nothing,
        (world.reply)(Ask::Cache) is Nothing && (world.reply)(Ask::Track) is Failed ==> run(world, Waterfall::start(), 11).verdict
            == Verdict::Failed,
        (world.reply)(Ask::Cache) is Nothing && (world.reply)(Ask::Track) is Track && (world.reply)(
            Ask::Preference,
        ) is Failed ==> run(world, Waterfall::start(), 11).verdict == Verdict::Failed,
{
    a_lookup_ends_as_told(world);
    reveal_with_fuel(run, 3);
}

/// Unless the network is to come first, the user's own files answer where they have lyrics,
/// and nobody on the network is asked.
pub proof fn own_files_answer_before_the_network(world: World)
    requires
        world.fits(),
        (world.reply)(Ask::Cache) is Nothing,
        (world.reply)(Ask::Track) is Track,
        (world.reply)(Ask::Preference) == (Reply::Prefer { network: false }),
    ensures
        (world.reply)(Ask::Local) is Found ==> run(world, Waterfall::start(), 11).verdict == Verdict::Answer(Tier::Local),
        (world.reply)(Ask::Local) is Found ==> run(world, Waterfall::start(), 4).ask is None,
        (world.reply)(Ask::Local) is Failed ==> run(world, Waterfall::start(), 11).verdict == Verdict::Failed,
        (world.reply)(Ask::Local) is Nothing && (world.offline)(Ask::Local) ==> run(world, Waterfall::start(), 11).verdict
            == Verdict::Nothing,
{
    a_lookup_ends_as_told(world);
    reveal_with_fuel(run, 6);
}

/// Where the network comes first but is off, the user's own files are asked all the same.
pub proof fn own_files_answer_offline(world: World)
    requires
        world.fits(),
        (world.reply)(Ask::Cache) is Nothing,
        (world.reply)(Ask::Track) is Track,
        (world.reply)(Ask::Preference) == (Reply::Prefer { network: true }),
        (world.offline)(Ask::Preference),
    ensures
        (world.reply)(Ask::Local) is Found ==> run(world, Waterfall::start(), 11).verdict == Verdict::Answer(Tier::Local),
        (world.reply)(Ask::Local) is Nothing ==> run(world, Waterfall::start(), 11).verdict == Verdict::Nothing,
        (world.reply)(Ask::Local) is Failed ==> run(world, Waterfall::start(), 11).verdict == Verdict::Failed,
{
    a_lookup_ends_as_told(world);
}

/// A plugin's lyrics that can be followed are the answer, whatever the others have.
pub proof fn a_plugin_with_timed_lyrics_answers(world: World, artist: bool)
    requires
        world.fits(),
        (world.reply)(Ask::Cache) is Nothing,
        (world.reply)(Ask::Track) == (Reply::Track { artist }),
        ((world.reply)(Ask::Preference) == (Reply::Prefer { network: true }) && !(world.offline)(
            Ask::Preference,
        )) || ((world.reply)(Ask::Preference) == (Reply::Prefer { network: false }) && (world.reply)(
            Ask::Local,
        ) is Nothing && !(world.offline)(Ask::Local)),
    ensures
        (world.reply)(Ask::Plugins) == (Reply::Found { synced: true }) ==> run(world, Waterfall::start(), 11).verdict == Verdict::Answer(
            Tier::Plugin,
        ),
        (world.reply)(Ask::Plugins) is Failed ==> run(world, Waterfall::start(), 11).verdict == Verdict::Failed,
{
    a_lookup_ends_as_told(world);
}

/// Behind the plugins Musixmatch answers, whether the artist is known or not.
pub proof fn musixmatch_answers_behind_the_plugins(world: World, artist: bool)
    requires
        world.fits(),
        (world.reply)(Ask::Cache) is Nothing,
        (world.reply)(Ask::Track) == (Reply::Track { artist }),
        ((world.reply)(Ask::Preference) == (Reply::Prefer { network: true }) && !(world.offline)(
            Ask::Preference,
        )) || ((world.reply)(Ask::Preference) == (Reply::Prefer { network: false }) && (world.reply)(
            Ask::Local,
        ) is Nothing && !(world.offline)(Ask::Local)),
        (world.reply)(Ask::Plugins) is Nothing,
        !(world.offline)(Ask::Plugins),
        (world.reply)(Ask::Musixmatch) is Found,
    ensures
        (world.reply)(Ask::Store(Tier::Musixmatch)) is Stored ==> run(world, Waterfall::start(), 11).verdict == Verdict::Answer(
            Tier::Musixmatch,
        ),
        (world.reply)(Ask::Store(Tier::Musixmatch)) is Failed ==> run(world, Waterfall::start(), 11).verdict == Verdict::Failed,
{
    a_lookup_ends_as_told(world);
}

/// Behind Musixmatch LRCLIB answers, with timed lyrics or plain ones, and its failure is
/// the lookup's.
pub proof fn lrclib_answers_behind_musixmatch(world: World, artist: bool)
    requires
        world.fits(),
        (world.reply)(Ask::Cache) is Nothing,
        (world.reply)(Ask::Track) == (Reply::Track { artist }),
        ((world.reply)(Ask::Preference) == (Reply::Prefer { network: true }) && !(world.offline)(
            Ask::Preference,
        )) || ((world.reply)(Ask::Preference) == (Reply::Prefer { network: false }) && (world.reply)(
            Ask::Local,
        ) is Nothing && !(world.offline)(Ask::Local)),
        artist,
        (world.reply)(Ask::Plugins) is Nothing,
        !(world.offline)(Ask::Plugins),
        !((world.reply)(Ask::Musixmatch) is Found),
        !(world.offline)(Ask::Musixmatch),
    ensures
        (world.reply)(Ask::Lrclib) is Found && (world.reply)(Ask::Store(Tier::Lrclib)) is Stored
            ==> run(world, Waterfall::start(), 11).verdict == Verdict::Answer(Tier::Lrclib),
        (world.reply)(Ask::Lrclib) is Found && (world.reply)(Ask::Store(Tier::Lrclib)) is Failed
            ==> run(world, Waterfall::start(), 11).verdict == Verdict::Failed,
        (world.reply)(Ask::Lrclib) is Failed ==> run(world, Waterfall::start(), 11).verdict == Verdict::Failed,
{
    a_lookup_ends_as_told(world);
}

/// Where LRCLIB has nothing the chain of the other providers answers.
pub proof fn the_chain_answers_behind_lrclib(world: World, artist: bool)
    requires
        world.fits(),
        (world.reply)(Ask::Cache) is Nothing,
        (world.reply)(Ask::Track) == (Reply::Track { artist }),
        ((world.reply)(Ask::Preference) == (Reply::Prefer { network: true }) && !(world.offline)(
            Ask::Preference,
        )) || ((world.reply)(Ask::Preference) == (Reply::Prefer { network: false }) && (world.reply)(
            Ask::Local,
        ) is Nothing && !(world.offline)(Ask::Local)),
        artist,
        (world.reply)(Ask::Plugins) is Nothing,
        !(world.offline)(Ask::Plugins),
        !((world.reply)(Ask::Musixmatch) is Found),
        !(world.offline)(Ask::Musixmatch),
        (world.reply)(Ask::Lrclib) is Nothing,
    ensures
        (world.reply)(Ask::Chain) is Found && (world.reply)(Ask::Store(Tier::Chain)) is Stored
            ==> run(world, Waterfall::start(), 11).verdict == Verdict::Answer(Tier::Chain),
        (world.reply)(Ask::Chain) is Nothing && (world.reply)(Ask::Local) is Nothing
            && (world.reply)(Ask::Store(Tier::Miss)) is Stored ==> run(world, Waterfall::start(), 11).verdict == Verdict::Answer(Tier::Miss),
        ((world.reply)(Ask::Chain) is Unavailable || (world.reply)(Ask::Chain) is Failed)
            && (world.reply)(Ask::Local) is Nothing ==> run(world, Waterfall::start(), 11).verdict == Verdict::Nothing,
        !((world.reply)(Ask::Chain) is Found) && (world.reply)(Ask::Local) is Found ==> run(world, Waterfall::start(), 11).verdict
            == Verdict::Answer(Tier::Local),
{
    a_lookup_ends_as_told(world);
}

/// That there are no lyrics to have is the answer where the user's own files have none
/// either; where they have, they answer.
pub proof fn an_instrumental_track_is_told_so(world: World, artist: bool)
    requires
        world.fits(),
        (world.reply)(Ask::Cache) is Nothing,
        (world.reply)(Ask::Track) == (Reply::Track { artist }),
        ((world.reply)(Ask::Preference) == (Reply::Prefer { network: true }) && !(world.offline)(
            Ask::Preference,
        )) || ((world.reply)(Ask::Preference) == (Reply::Prefer { network: false }) && (world.reply)(
            Ask::Local,
        ) is Nothing && !(world.offline)(Ask::Local)),
        artist,
        (world.reply)(Ask::Plugins) is Nothing,
        !(world.offline)(Ask::Plugins),
        !((world.reply)(Ask::Musixmatch) is Found),
        !(world.offline)(Ask::Musixmatch),
        (world.reply)(Ask::Lrclib) is Instrumental,
    ensures
        (world.reply)(Ask::Local) is Nothing && (world.reply)(
            Ask::Store(Tier::Instrumental),
        ) is Stored ==> run(world, Waterfall::start(), 11).verdict == Verdict::Answer(Tier::Instrumental),
        (world.reply)(Ask::Local) is Found ==> run(world, Waterfall::start(), 11).verdict == Verdict::Answer(Tier::Local),
{
    a_lookup_ends_as_told(world);
}

/// A track without an artist is asked of the plugins and of Musixmatch alone.
pub proof fn without_an_artist_lrclib_is_not_asked(world: World, artist: bool)
    requires
        world.fits(),
        (world.reply)(Ask::Cache) is Nothing,
        (world.reply)(Ask::Track) == (Reply::Track { artist }),
        ((world.reply)(Ask::Preference) == (Reply::Prefer { network: true }) && !(world.offline)(
            Ask::Preference,
        )) || ((world.reply)(Ask::Preference) == (Reply::Prefer { network: false }) && (world.reply)(
            Ask::Local,
        ) is Nothing && !(world.offline)(Ask::Local)),
        !artist,
        (world.reply)(Ask::Plugins) is Nothing,
        !((world.reply)(Ask::Musixmatch) is Found),
    ensures
        (world.reply)(Ask::Local) is Nothing ==> run(world, Waterfall::start(), 11).verdict == Verdict::Nothing,
        (world.reply)(Ask::Local) is Found ==> run(world, Waterfall::start(), 11).verdict == Verdict::Answer(Tier::Local),
{
    a_lookup_ends_as_told(world);
}

/// A plugin's lyrics that cannot be followed are kept back: they are the answer unless a
/// later source has some that can.
pub proof fn a_plugin_with_plain_lyrics_waits(world: World, artist: bool)
    requires
        world.fits(),
        (world.reply)(Ask::Cache) is Nothing,
        (world.reply)(Ask::Track) == (Reply::Track { artist }),
        ((world.reply)(Ask::Preference) == (Reply::Prefer { network: true }) && !(world.offline)(
            Ask::Preference,
        )) || ((world.reply)(Ask::Preference) == (Reply::Prefer { network: false }) && (world.reply)(
            Ask::Local,
        ) is Nothing && !(world.offline)(Ask::Local)),
        artist,
        (world.reply)(Ask::Plugins) == (Reply::Found { synced: false }),
        !(world.offline)(Ask::Plugins),
        (world.reply)(Ask::Musixmatch) is Nothing,
        !(world.offline)(Ask::Musixmatch),
        (world.reply)(Ask::StoreHeld) is Stored,
    ensures
        (world.reply)(Ask::Lrclib) == (Reply::Found { synced: true }) && (world.reply)(
            Ask::Store(Tier::Lrclib),
        ) is Stored ==> run(world, Waterfall::start(), 11).verdict == Verdict::Answer(Tier::Lrclib),
        (world.reply)(Ask::Lrclib) == (Reply::Found { synced: false }) ==> run(world, Waterfall::start(), 11).verdict == Verdict::Answer(
            Tier::Plugin,
        ),
        (world.reply)(Ask::Lrclib) is Failed ==> run(world, Waterfall::start(), 11).verdict == Verdict::Answer(Tier::Plugin),
        (world.reply)(Ask::Lrclib) is Instrumental && !((world.reply)(Ask::Local) is Found) ==> run(world, Waterfall::start(), 11).verdict
            == Verdict::Answer(Tier::Plugin),
        (world.reply)(Ask::Lrclib) is Nothing && (world.reply)(Ask::Chain) == (Reply::Found {
            synced: true,
        }) && (world.reply)(Ask::Store(Tier::Chain)) is Stored ==> run(world, Waterfall::start(), 11).verdict == Verdict::Answer(
            Tier::Chain,
        ),
        (world.reply)(Ask::Lrclib) is Nothing && !((world.reply)(Ask::Chain) is Found) && !((
        world.reply)(Ask::Local) is Found) ==> run(world, Waterfall::start(), 11).verdict == Verdict::Answer(Tier::Plugin),
{
    a_lookup_ends_as_told(world);
}

} // verus!
