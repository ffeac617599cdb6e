//! Configuration consumed by the pipeline: poll cadence, platform
//! address, and the competitions to monitor. The surrounding application
//! loads it from its file; the logic here only reads it.

use vstd::prelude::*;
use crate::models::opt_string_view;
use crate::models::clone_opt_string;

verus! {

/// Chat-side settings: where announcements are sent.
pub struct DiscordConfig {
    /// Gateway token of the bot account.
    pub token: String,
    /// Channel that receives the announcements.
    pub channel_id: u64,
}

/// Platform-side settings: where announcements come from, and how often.
pub struct GzctfConfig {
    /// Base address of the competition platform.
    pub url: String,
    /// Poll cadence, in seconds.
    pub poll_interval: u64,
    /// The competitions to monitor.
    pub matches: Vec<MatchConfig>,
    /// Shorthand for monitoring a single competition, used when
    /// `matches` is empty.
    pub match_id: Option<u32>,
}

/// The mathematical value of a [`MatchConfig`].
pub struct MatchConfigView {
    pub id: u32,
    pub name: Option<Seq<char>>,
}

/// One monitored competition: its platform id and an optional display
/// name.
pub struct MatchConfig {
    pub id: u32,
    pub name: Option<String>,
}

impl View for MatchConfig {
    type V = MatchConfigView;

    open spec fn view(&self) -> MatchConfigView {
        MatchConfigView { id: self.id, name: opt_string_view(self.name) }
    }
}

impl Clone for MatchConfig {
    fn clone(&self) -> (res: Self)
        ensures
            res@ == self@,
    {
        MatchConfig { id: self.id, name: clone_opt_string(&self.name) }
    }
}

/// The views of the elements of a vector of competitions.
pub open spec fn match_views(s: Seq<MatchConfig>) -> Seq<MatchConfigView> {
    Seq::new(s.len(), |i: int| s[i]@)
}

/// The whole configuration.
pub struct Config {
    pub discord: DiscordConfig,
    pub gzctf: GzctfConfig,
}

/// The competitions a configuration asks to monitor: the configured
/// list, or the single-id shorthand as a one-element list, or nothing.
pub open spec fn configured_matches(c: Config) -> Seq<MatchConfigView> {
    if match_views(c.gzctf.matches@).len() > 0 {
        match_views(c.gzctf.matches@)
    } else {
        match c.gzctf.match_id {
            Some(id) => seq![MatchConfigView { id: id, name: None }],
            None => Seq::<MatchConfigView>::empty(),
        }
    }
}

impl Config {
    /// The competitions to monitor, as [`configured_matches`] lists them.
    pub fn get_matches(&self) -> (r: Vec<MatchConfig>)
        ensures
            match_views(r@) == configured_matches(*self),
    {
        if self.gzctf.matches.len() > 0 {
            let mut out: Vec<MatchConfig> = Vec::new();
            let mut i: usize = 0;
            while i < self.gzctf.matches.len()
                invariant
                    i <= self.gzctf.matches.len(),
                    out@.len() == i,
                    forall|j: int| 0 <= j < i ==> (#[trigger] out@[j])@ == self.gzctf.matches@[j]@,
                decreases self.gzctf.matches.len() - i,
            {
                out.push(self.gzctf.matches[i].clone());
                i += 1;
            }
            proof {
                assert(match_views(out@) =~= match_views(self.gzctf.matches@));
            }
            out
        } else {
            match self.gzctf.match_id {
                Some(id) => {
                    let mut out: Vec<MatchConfig> = Vec::new();
                    out.push(MatchConfig { id, name: None });
                    proof {
                        assert(match_views(out@) =~= configured_matches(*self));
                    }
                    out
                },
                None => {
                    let out: Vec<MatchConfig> = Vec::new();
                    proof {
                        assert(match_views(out@) =~= configured_matches(*self));
                    }
                    out
                },
            }
        }
    }
}

} // verus!
