//! Translation of protocol flags to the local store's flag codes.
//!
//! Each recognized protocol flag maps to one code character; unrecognized
//! flags are dropped silently. The code string for a message keeps the order
//! in which the flags were reported — the translation filters, it never
//! reorders.

use vstd::prelude::*;

verus! {

/// A message flag as the remote protocol reports it. Flags the local store
/// does not understand are collapsed to `Other` by the session layer; they
/// contribute nothing to the local code string.
#[derive(Clone, Copy, Debug, PartialEq, Eq, Structural)]
pub enum ProtocolFlag {
    Seen,
    Answered,
    Flagged,
    Deleted,
    Draft,
    Other,
}

/// The local store's code character for one protocol flag, or `None` for a
/// flag the store does not understand.
pub open spec fn flag_code(f: ProtocolFlag) -> Option<char> {
    match f {
        ProtocolFlag::Seen => Some('S'),
        ProtocolFlag::Answered => Some('R'),
        ProtocolFlag::Flagged => Some('F'),
        ProtocolFlag::Deleted => Some('T'),
        ProtocolFlag::Draft => Some('D'),
        ProtocolFlag::Other => None,
    }
}

/// The code characters of a flag sequence, in reported order, recognized
/// flags only.
pub open spec fn flag_codes(fs: Seq<ProtocolFlag>) -> Seq<char>
    decreases fs.len(),
{
    if fs.len() == 0 {
        Seq::empty()
    } else {
        flag_codes(fs.drop_last()) + match flag_code(fs.last()) {
            Some(c) => seq![c],
            None => Seq::empty(),
        }
    }
}

/// Law: translating two reported flag runs one after the other yields the
/// concatenation of their translations — the translation is order-preserving
/// and filter-only, never sorting or merging across positions.
pub proof fn lemma_flag_codes_append(fs1: Seq<ProtocolFlag>, fs2: Seq<ProtocolFlag>)
    ensures
        flag_codes(fs1 + fs2) == flag_codes(fs1) + flag_codes(fs2),
    decreases fs2.len(),
{
    if fs2.len() == 0 {
        assert(fs1 + fs2 =~= fs1);
        assert(flag_codes(fs1) + flag_codes(fs2) =~= flag_codes(fs1));
    } else {
        lemma_flag_codes_append(fs1, fs2.drop_last());
        assert((fs1 + fs2).drop_last() =~= fs1 + fs2.drop_last());
        assert((fs1 + fs2).last() == fs2.last());
        assert(flag_codes(fs1) + flag_codes(fs2.drop_last()) + match flag_code(fs2.last()) {
            Some(c) => seq![c],
            None => Seq::empty(),
        } =~= flag_codes(fs1) + flag_codes(fs2));
    }
}

/// One code character of the local store.
#[derive(Clone, Copy, Debug, PartialEq, Eq, Structural)]
pub struct MaildirFlag(pub char);

impl MaildirFlag {
    /// The code character itself.
    pub fn as_char(&self) -> (c: char)
        ensures
            c == self.0,
    {
        self.0
    }

    /// The local code for one protocol flag, or `None` for a flag the local
    /// store does not understand.
    pub fn from(f: &ProtocolFlag) -> (r: Option<MaildirFlag>)
        ensures
            match flag_code(*f) {
                Some(c) => r matches Some(m) && m.0 == c,
                None => r is None,
            },
    {
        match f {
            ProtocolFlag::Seen => Some(MaildirFlag('S')),
            ProtocolFlag::Answered => Some(MaildirFlag('R')),
            ProtocolFlag::Flagged => Some(MaildirFlag('F')),
            ProtocolFlag::Deleted => Some(MaildirFlag('T')),
            ProtocolFlag::Draft => Some(MaildirFlag('D')),
            ProtocolFlag::Other => None,
        }
    }
}

/// The local code string for a message's reported flags: each recognized
/// flag contributes its code character, in reported order; unrecognized
/// flags contribute nothing.
pub fn flags_for_maildir(flags: &[ProtocolFlag]) -> (r: String)
    ensures
        r@ == flag_codes(flags@),
{
    proof {
        reveal_strlit("S");
        reveal_strlit("R");
        reveal_strlit("F");
        reveal_strlit("T");
        reveal_strlit("D");
    }
    let mut s = String::new();
    let mut i: usize = 0;
    while i < flags.len()
        invariant
            i <= flags.len(),
            s@ == flag_codes(flags@.take(i as int)),
            "S"@ == seq!['S'],
            "R"@ == seq!['R'],
            "F"@ == seq!['F'],
            "T"@ == seq!['T'],
            "D"@ == seq!['D'],
        decreases flags.len() - i,
    {
        let ghost prefix = flags@.take(i as int);
        match flags[i] {
            ProtocolFlag::Seen => s.append("S"),
            ProtocolFlag::Answered => s.append("R"),
            ProtocolFlag::Flagged => s.append("F"),
            ProtocolFlag::Deleted => s.append("T"),
            ProtocolFlag::Draft => s.append("D"),
            ProtocolFlag::Other => (),
        }
        proof {
            assert(flags@.take(i + 1).drop_last() =~= prefix);
            assert(flags@.take(i + 1).last() == flags@[i as int]);
            assert(s@ =~= flag_codes(flags@.take(i + 1)));
        }
        i += 1;
    }
    proof {
        assert(flags@.take(flags@.len() as int) =~= flags@);
    }
    s
}

} // verus!
