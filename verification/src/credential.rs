//! Credential resolution: turning a credential descriptor into the
//! plaintext secret used to authenticate.
//!
//! A plaintext credential is used unchanged. A shell-sourced credential
//! names a command line: it is split by shell word rules into a program and
//! its arguments, the program is run (by the unverified shell around this
//! crate), and the captured standard output — decoded as text and stripped
//! of leading and trailing whitespace — is the secret. Resolution happens
//! once per account per run; the secret is never logged.

use vstd::prelude::*;
use crate::config::PasswordContainer;
use crate::errors::SyncError;

verus! {

/// Whether `c` carries the Unicode `White_Space` property, the same notion
/// of whitespace that text trimming in the standard library uses.
pub open spec fn is_space(c: char) -> bool {
    ||| c == '\u{0009}'
    ||| c == '\u{000A}'
    ||| c == '\u{000B}'
    ||| c == '\u{000C}'
    ||| c == '\u{000D}'
    ||| c == ' '
    ||| c == '\u{0085}'
    ||| c == '\u{00A0}'
    ||| c == '\u{1680}'
    ||| c == '\u{2000}'
    ||| c == '\u{2001}'
    ||| c == '\u{2002}'
    ||| c == '\u{2003}'
    ||| c == '\u{2004}'
    ||| c == '\u{2005}'
    ||| c == '\u{2006}'
    ||| c == '\u{2007}'
    ||| c == '\u{2008}'
    ||| c == '\u{2009}'
    ||| c == '\u{200A}'
    ||| c == '\u{2028}'
    ||| c == '\u{2029}'
    ||| c == '\u{202F}'
    ||| c == '\u{205F}'
    ||| c == '\u{3000}'
}

fn is_space_char(c: char) -> (r: bool)
    ensures
        r == is_space(c),
{
    c == '\u{0009}' || c == '\u{000A}' || c == '\u{000B}' || c == '\u{000C}' || c == '\u{000D}'
        || c == ' ' || c == '\u{0085}' || c == '\u{00A0}' || c == '\u{1680}' || c == '\u{2000}'
        || c == '\u{2001}' || c == '\u{2002}' || c == '\u{2003}' || c == '\u{2004}' || c
        == '\u{2005}' || c == '\u{2006}' || c == '\u{2007}' || c == '\u{2008}' || c == '\u{2009}'
        || c == '\u{200A}' || c == '\u{2028}' || c == '\u{2029}' || c == '\u{202F}' || c
        == '\u{205F}' || c == '\u{3000}'
}

/// `s` with every leading and every trailing whitespace character removed.
pub open spec fn trimmed(s: Seq<char>) -> Seq<char>
    decreases s.len(),
{
    if s.len() == 0 {
        s
    } else if is_space(s.first()) {
        trimmed(s.drop_first())
    } else if is_space(s.last()) {
        trimmed(s.drop_last())
    } else {
        s
    }
}

proof fn lemma_trimmed_all_space(s: Seq<char>)
    requires
        forall|i: int| 0 <= i < s.len() ==> is_space(#[trigger] s[i]),
    ensures
        trimmed(s) == Seq::<char>::empty(),
    decreases s.len(),
{
    if s.len() == 0 {
        assert(s =~= Seq::<char>::empty());
    } else {
        lemma_trimmed_all_space(s.drop_first());
    }
}

proof fn lemma_trimmed_window(s: Seq<char>, a: int, b: int)
    requires
        0 <= a <= b < s.len(),
        forall|i: int| 0 <= i < a ==> is_space(#[trigger] s[i]),
        forall|j: int| b < j < s.len() ==> is_space(#[trigger] s[j]),
        !is_space(s[a]),
        !is_space(s[b]),
    ensures
        trimmed(s) == s.subrange(a, b + 1),
    decreases s.len(),
{
    if a > 0 {
        lemma_trimmed_window(s.drop_first(), a - 1, b - 1);
        assert(s.drop_first().subrange(a - 1, b) =~= s.subrange(a, b + 1));
    } else if b < s.len() - 1 {
        lemma_trimmed_window(s.drop_last(), a, b);
        assert(s.drop_last().subrange(a, b + 1) =~= s.subrange(a, b + 1));
    } else {
        assert(s.subrange(0, s.len() as int) =~= s);
    }
}

/// Strips leading and trailing whitespace from `s`.
fn trim_text(s: &str) -> (r: String)
    ensures
        r@ == trimmed(s@),
{
    let n = s.unicode_len();
    let mut a: usize = 0;
    while a < n && is_space_char(s.get_char(a))
        invariant
            a <= n == s@.len(),
            forall|i: int| 0 <= i < a ==> is_space(#[trigger] s@[i]),
        decreases n - a,
    {
        a += 1;
    }
    if a == n {
        proof {
            lemma_trimmed_all_space(s@);
        }
        String::new()
    } else {
        let mut b: usize = n - 1;
        while is_space_char(s.get_char(b))
            invariant
                a <= b < n == s@.len(),
                !is_space(s@[a as int]),
                forall|j: int| b < j < s@.len() ==> is_space(#[trigger] s@[j]),
            decreases b,
        {
            b -= 1;
        }
        proof {
            lemma_trimmed_window(s@, a as int, b as int);
        }
        let t = s.substring_char(a, b + 1);
        t.to_owned()
    }
}

/// What shell word splitting makes of a command line: the ordered tokens,
/// or nothing when the quoting cannot be parsed.
pub uninterp spec fn shell_split(s: Seq<char>) -> Option<Seq<Seq<char>>>;

/// Relies on shlex::split: splits a command line by shell word rules,
/// reporting erroneous quoting as `None`. The outcome depends on the text
/// alone.
#[verifier::external_body]
fn split_command(s: &str) -> (r: Option<Vec<String>>)
    ensures
        r is Some <==> shell_split(s@) is Some,
        r matches Some(v) ==> Some(v.deep_view()) == shell_split(s@),
{
    shlex::split(s)
}

/// What UTF-8 decoding makes of a byte sequence: its text, or nothing when
/// the bytes are not valid UTF-8.
pub uninterp spec fn utf8_decode(bytes: Seq<u8>) -> Option<Seq<char>>;

/// Relies on String::from_utf8: decodes the bytes as UTF-8 text, reporting
/// invalid UTF-8 as `None`. The outcome depends on the bytes alone.
#[verifier::external_body]
fn decode_utf8(bytes: Vec<u8>) -> (r: Option<String>)
    ensures
        r is Some <==> utf8_decode(bytes@) is Some,
        r matches Some(s) ==> Some(s@) == utf8_decode(bytes@),
{
    String::from_utf8(bytes).ok()
}

/// The one step of outside work credential resolution may need: either the
/// secret is already at hand, or the named program must be run with the
/// given arguments and its standard output handed back.
pub enum CredentialStep {
    Ready(String),
    Run { program: String, args: Vec<String> },
}

/// Decides how to resolve a credential descriptor. A plaintext credential
/// is ready as it stands. A shell-sourced credential is split by shell word
/// rules: no tokens or unparsable quoting is `CredentialCommandMalformed`;
/// otherwise the first token is the program to run and the rest are its
/// arguments.
pub fn plan_credential(pc: &PasswordContainer) -> (r: Result<CredentialStep, SyncError>)
    ensures
        pc matches PasswordContainer::Plaintext(p) ==> (r matches Ok(
            CredentialStep::Ready(s),
        ) && s@ == p@),
        pc matches PasswordContainer::Shell(cmd) ==> match shell_split(cmd@) {
            None => r == Err::<CredentialStep, SyncError>(SyncError::CredentialCommandMalformed),
            Some(toks) => if toks.len() == 0 {
                r == Err::<CredentialStep, SyncError>(SyncError::CredentialCommandMalformed)
            } else {
                r matches Ok(CredentialStep::Run { program, args }) && program@ == toks[0]
                    && args.deep_view() == toks.drop_first()
            },
        },
{
    match pc {
        PasswordContainer::Plaintext(p) => Ok(CredentialStep::Ready(p.clone())),
        PasswordContainer::Shell(cmd) => match split_command(cmd.as_str()) {
            None => Err(SyncError::CredentialCommandMalformed),
            Some(mut toks) => if toks.len() == 0 {
                Err(SyncError::CredentialCommandMalformed)
            } else {
                let ghost all = toks.deep_view();
                let program = toks.remove(0);
                proof {
                    assert(toks.deep_view() =~= all.drop_first());
                }
                Ok(CredentialStep::Run { program, args: toks })
            },
        },
    }
}

/// Turns the captured standard output of a credential command into the
/// secret: the output must be valid text, and is stripped of leading and
/// trailing whitespace. Output that is not valid text is
/// `CredentialNotUtf8`.
pub fn credential_from_output(output: Vec<u8>) -> (r: Result<String, SyncError>)
    ensures
        utf8_decode(output@) is None ==> r == Err::<String, SyncError>(
            SyncError::CredentialNotUtf8,
        ),
        utf8_decode(output@) matches Some(text) ==> (r matches Ok(s) && s@ == trimmed(text)),
{
    match decode_utf8(output) {
        None => Err(SyncError::CredentialNotUtf8),
        Some(s) => Ok(trim_text(s.as_str())),
    }
}

} // verus!
