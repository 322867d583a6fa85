//! The password of a run: asked for at most once, then shared by all
//! workers.

use vstd::prelude::*;

verus! {

/// Where the password of a run stands.
#[derive(Clone, Debug)]
pub enum CredentialState {
    /// No password yet; one may be asked for.
    NoCredential,
    /// A worker is asking for the password.
    Prompting,
    /// The password to use for every encrypted entry.
    Cached(Vec<u8>),
    /// No password can be had: encrypted entries are skipped.
    Unavailable,
}

/// What a worker does next with an encrypted entry.
#[derive(Clone, Debug)]
pub enum PasswordAction {
    /// Decrypt with this password.
    Use(Vec<u8>),
    /// Ask for the password, then report the answer.
    Prompt,
    /// Another worker is asking: come back later.
    Wait,
    /// Skip the entry.
    Skip,
}

/// The credential cache shared by the workers of a run (behind a lock).
pub struct PasswordCoordinator {
    pub state: CredentialState,
}

impl PasswordCoordinator {
    /// A coordinator for a run.
    pub fn new(password: Option<Vec<u8>>, can_prompt: bool) -> (c: Self)
        ensures
            match password {
                Some(p) => c.state matches CredentialState::Cached(q) && q@ == p@,
                None => if can_prompt {
                    c.state is NoCredential
                } else {
                    c.state is Unavailable
                },
            },
    {
        match password {
            Some(p) => PasswordCoordinator { state: CredentialState::Cached(p) },
            None => if can_prompt {
                PasswordCoordinator { state: CredentialState::NoCredential }
            } else {
                PasswordCoordinator { state: CredentialState::Unavailable }
            },
        }
    }

    /// A worker found an entry that needs a password. The first such worker
    /// is told to prompt; others wait until the answer is in; after that,
    /// everyone uses the cached password, or skips when there is none.
    pub fn request(&mut self) -> (a: PasswordAction)
        ensures
            match old(self).state {
                CredentialState::NoCredential => a is Prompt && final(self).state is Prompting,
                CredentialState::Prompting => a is Wait && final(self).state is Prompting,
                CredentialState::Cached(p) => a matches PasswordAction::Use(q) && q@ == p@
                    && final(self).state == old(self).state,
                CredentialState::Unavailable => a is Skip && final(self).state is Unavailable,
            },
    {
        match &self.state {
            CredentialState::NoCredential => {
                self.state = CredentialState::Prompting;
                PasswordAction::Prompt
            },
            CredentialState::Prompting => PasswordAction::Wait,
            CredentialState::Cached(p) => PasswordAction::Use(p.clone()),
            CredentialState::Unavailable => PasswordAction::Skip,
        }
    }

    /// The prompting worker reports the answer (`None` when the prompt
    /// failed). Only the answer to the one prompt is kept; the cached
    /// password is never replaced.
    pub fn prompt_finished(&mut self, answer: Option<Vec<u8>>)
        ensures
            old(self).state is Prompting ==> match answer {
                Some(p) => final(self).state matches CredentialState::Cached(q) && q@ == p@,
                None => final(self).state is Unavailable,
            },
            !(old(self).state is Prompting) ==> final(self).state == old(self).state,
    {
        if let CredentialState::Prompting = self.state {
            self.state = match answer {
                Some(p) => CredentialState::Cached(p),
                None => CredentialState::Unavailable,
            };
        }
    }
}

/// Whether `needle` occurs in `hay`.
pub open spec fn occurs_in(hay: Seq<char>, needle: Seq<char>) -> bool {
    exists|i: int| 0 <= i <= hay.len() - needle.len() && #[trigger] hay.subrange(i, i + needle.len()) == needle
}

/// Whether `needle` occurs in `hay`.
fn contains_str(hay: &str, needle: &str) -> (r: bool)
    ensures
        r == occurs_in(hay@, needle@),
{
    let n = hay.unicode_len();
    let m = needle.unicode_len();
    if m > n {
        return false;
    }
    let mut i: usize = 0;
    while i <= n - m
        invariant
            n == hay@.len(),
            m == needle@.len(),
            m <= n,
            i <= n - m + 1,
            forall|s: int| 0 <= s < i ==> #[trigger] hay@.subrange(s, s + m) != needle@,
        decreases n - m + 1 - i,
    {
        let mut k: usize = 0;
        while k < m && hay.get_char(i + k) == needle.get_char(k)
            invariant
                n == hay@.len(),
                m == needle@.len(),
                i + m <= n,
                k <= m,
                forall|d: int| 0 <= d < k ==> hay@[i + d] == needle@[d],
            decreases m - k,
        {
            k = k + 1;
        }
        if k == m {
            assert(hay@.subrange(i as int, i + m) =~= needle@);
            return true;
        }
        assert(hay@.subrange(i as int, i + m)[k as int] != needle@[k as int]);
        i = i + 1;
    }
    false
}

/// Whether a decoder's error message tells that an entry needs a password,
/// or that the one given does not open it.
pub fn is_password_error(error: &str) -> (r: bool)
    ensures
        r == (occurs_in(error@, "password"@) || occurs_in(error@, "encrypted"@) || occurs_in(
            error@,
            "InvalidPassword"@,
        ) || occurs_in(error@, "UnsupportedArchive"@)),
{
    contains_str(error, "password") || contains_str(error, "encrypted") || contains_str(
        error,
        "InvalidPassword",
    ) || contains_str(error, "UnsupportedArchive")
}

} // verus!
