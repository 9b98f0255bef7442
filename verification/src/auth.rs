//! Tokens for the ticket trackers: where they are kept and how an
//! existing one is shown.

use vstd::prelude::*;
use crate::paths::{join_path, joined_path};
use crate::text::{chars_of, push_all, same_text, slice_of, string_of};

verus! {

/// A tracker that a token can be stored for.
#[derive(Debug, Clone, Copy, PartialEq, Eq, Structural)]
pub enum AuthProvider {
    Linear,
    Sentry,
}

impl AuthProvider {
    /// The name of the provider as typed on the command line.
    pub fn name(&self) -> (name: &'static str)
        ensures
            name@ == match *self {
                AuthProvider::Linear => "linear"@,
                AuthProvider::Sentry => "sentry"@,
            },
    {
        match self {
            AuthProvider::Linear => "linear",
            AuthProvider::Sentry => "sentry",
        }
    }

    /// The name of the file that holds the provider's token.
    pub fn token_file(&self) -> (file: &'static str)
        ensures
            file@ == match *self {
                AuthProvider::Linear => "linear_token"@,
                AuthProvider::Sentry => "sentry_token"@,
            },
    {
        match self {
            AuthProvider::Linear => "linear_token",
            AuthProvider::Sentry => "sentry_token",
        }
    }
}

/// The provider called `name`, if there is one.
pub fn provider_named(name: &str) -> (provider: Option<AuthProvider>)
    ensures
        provider == if name@ == "linear"@ {
            Some(AuthProvider::Linear)
        } else if name@ == "sentry"@ {
            Some(AuthProvider::Sentry)
        } else {
            None
        },
{
    if same_text(name, "linear") {
        Some(AuthProvider::Linear)
    } else if same_text(name, "sentry") {
        Some(AuthProvider::Sentry)
    } else {
        None
    }
}

/// The file of a token: `<parent>/.sesh/secrets/<file>`.
pub fn secret_path(parent_dir: &str, file: &str) -> (path: String)
    ensures
        path@ == joined_path(joined_path(parent_dir@, ".sesh/secrets"@), file@),
{
    let dir = join_path(parent_dir, ".sesh/secrets");
    join_path(dir.as_str(), file)
}

/// How an existing token is shown: its first four and last four
/// characters around an ellipsis if it has more than eight, and four
/// asterisks otherwise.
pub open spec fn masked(token: Seq<char>) -> Seq<char> {
    if token.len() > 8 {
        token.take(4) + seq!['\u{2026}'] + token.skip(token.len() - 4)
    } else {
        seq!['*', '*', '*', '*']
    }
}

/// Masks a token for display.
pub fn mask_token(token: &str) -> (shown: String)
    ensures
        shown@ == masked(token@),
{
    let v = chars_of(token);
    let mut out: Vec<char> = Vec::new();
    if v.len() > 8 {
        let head = slice_of(&v, 0, 4);
        let tail = slice_of(&v, v.len() - 4, v.len());
        push_all(&mut out, &head);
        out.push('\u{2026}');
        push_all(&mut out, &tail);
        assert(v@.subrange(0, 4) == v@.take(4));
        assert(v@.subrange(v.len() - 4, v.len() as int) == v@.skip(v.len() - 4));
    } else {
        out.push('*');
        out.push('*');
        out.push('*');
        out.push('*');
    }
    string_of(&out)
}

} // verus!
