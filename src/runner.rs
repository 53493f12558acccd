use vstd::prelude::*;

use crate::agent::AgentError;

verus! {

/// The model providers that a job can name.
#[derive(Debug, Clone, Copy, PartialEq, Eq, Structural)]
pub enum Provider {
    Xai,
    Gemini,
    Deepseek,
    Openai,
    Openrouter,
}

pub open spec fn provider_of(name: Seq<char>) -> Option<Provider> {
    if name == seq!['x', 'a', 'i'] {
        Some(Provider::Xai)
    } else if name == seq!['g', 'e', 'm', 'i', 'n', 'i'] {
        Some(Provider::Gemini)
    } else if name == seq!['d', 'e', 'e', 'p', 's', 'e', 'e', 'k'] {
        Some(Provider::Deepseek)
    } else if name == seq!['o', 'p', 'e', 'n', 'a', 'i'] {
        Some(Provider::Openai)
    } else if name == seq!['o', 'p', 'e', 'n', 'r', 'o', 'u', 't', 'e', 'r'] {
        Some(Provider::Openrouter)
    } else {
        None
    }
}

/// The provider a name stands for; `None` for a provider that is not supported.
pub fn parse_provider(name: &str) -> (r: Option<Provider>)
    ensures
        r == provider_of(name@),
{
    let name = String::from_str(name);
    let xai = String::from_str("xai");
    let gemini = String::from_str("gemini");
    let deepseek = String::from_str("deepseek");
    let openai = String::from_str("openai");
    let openrouter = String::from_str("openrouter");
    proof {
        reveal_strlit("xai");
        reveal_strlit("gemini");
        reveal_strlit("deepseek");
        reveal_strlit("openai");
        reveal_strlit("openrouter");
        assert(xai@ =~= seq!['x', 'a', 'i']);
        assert(gemini@ =~= seq!['g', 'e', 'm', 'i', 'n', 'i']);
        assert(deepseek@ =~= seq!['d', 'e', 'e', 'p', 's', 'e', 'e', 'k']);
        assert(openai@ =~= seq!['o', 'p', 'e', 'n', 'a', 'i']);
        assert(openrouter@ =~= seq!['o', 'p', 'e', 'n', 'r', 'o', 'u', 't', 'e', 'r']);
    }
    if name == xai {
        Some(Provider::Xai)
    } else if name == gemini {
        Some(Provider::Gemini)
    } else if name == deepseek {
        Some(Provider::Deepseek)
    } else if name == openai {
        Some(Provider::Openai)
    } else if name == openrouter {
        Some(Provider::Openrouter)
    } else {
        None
    }
}

/// The retry budget around one agent run: a fixed number of attempts, with a
/// fixed delay between two of them.
pub struct RetryPolicy {
    pub attempts: u32,
    pub max_attempts: u32,
    pub delay_secs: u64,
}

/// What to do after a failed attempt.
#[derive(Debug, Clone, Copy, PartialEq, Eq, Structural)]
pub enum RetryStep {
    /// Wait for the delay, then try again.
    RetryAfter(u64),
    /// Stop and report the last error.
    GiveUp,
}

impl RetryPolicy {
    pub fn new(max_attempts: u32, delay_secs: u64) -> (r: RetryPolicy)
        ensures
            r.attempts == 0,
            r.max_attempts == max_attempts,
            r.delay_secs == delay_secs,
    {
        RetryPolicy { attempts: 0, max_attempts, delay_secs }
    }

    /// Whether an attempt may still be made.
    pub fn may_attempt(&self) -> (r: bool)
        ensures
            r == (self.attempts < self.max_attempts),
    {
        self.attempts < self.max_attempts
    }

    /// Counts a failed attempt. A transient error is retried while attempts are
    /// left; any other error ends the run at once.
    pub fn after_failure(&mut self, err: &AgentError) -> (r: RetryStep)
        requires
            old(self).attempts < old(self).max_attempts,
        ensures
            final(self).attempts == old(self).attempts + 1,
            final(self).max_attempts == old(self).max_attempts,
            final(self).delay_secs == old(self).delay_secs,
            r == if err.spec_is_transient() && final(self).attempts < final(self).max_attempts {
                RetryStep::RetryAfter(old(self).delay_secs)
            } else {
                RetryStep::GiveUp
            },
    {
        self.attempts = self.attempts + 1;
        if err.is_transient() && self.attempts < self.max_attempts {
            RetryStep::RetryAfter(self.delay_secs)
        } else {
            RetryStep::GiveUp
        }
    }
}

} // verus!
