//! Chat text handling: space-trimming of wire strings, the chat line
//! format, and the error lines the command surface sends back.

use vstd::prelude::*;

verus! {

/// Leading spaces of `s`.
pub open spec fn lead_spaces(s: Seq<u8>) -> int
    decreases s.len(),
{
    if s.len() == 0 {
        0
    } else if s[0] != 0x20 {
        0
    } else {
        1 + lead_spaces(s.skip(1))
    }
}

/// Trailing spaces of `s`.
pub open spec fn trail_spaces(s: Seq<u8>) -> int
    decreases s.len(),
{
    if s.len() == 0 {
        0
    } else if s.last() != 0x20 {
        0
    } else {
        1 + trail_spaces(s.drop_last())
    }
}

/// `s` with leading and trailing spaces removed. Wire strings arrive
/// space-padded to 64 bytes; this undoes the padding.
pub open spec fn trimmed(s: Seq<u8>) -> Seq<u8> {
    if lead_spaces(s) == s.len() {
        Seq::empty()
    } else {
        s.subrange(lead_spaces(s), s.len() - trail_spaces(s))
    }
}

pub proof fn lemma_lead_spaces_characterization(s: Seq<u8>, i: int)
    requires
        0 <= i <= s.len(),
        forall|j: int| 0 <= j < i ==> s[j] == 0x20,
        i == s.len() || s[i] != 0x20,
    ensures
        lead_spaces(s) == i,
    decreases s.len(),
{
    if s.len() > 0 && s[0] == 0x20 {
        assert forall|j: int| 0 <= j < i - 1 implies s.skip(1)[j] == 0x20 by {
            assert(s.skip(1)[j] == s[j + 1]);
        }
        if i < s.len() {
            assert(s.skip(1)[i - 1] == s[i]);
        }
        lemma_lead_spaces_characterization(s.skip(1), i - 1);
    }
}

pub proof fn lemma_trail_spaces_characterization(s: Seq<u8>, i: int)
    requires
        0 <= i <= s.len(),
        forall|j: int| s.len() - i <= j < s.len() ==> s[j] == 0x20,
        i == s.len() || s[s.len() - i - 1] != 0x20,
    ensures
        trail_spaces(s) == i,
    decreases s.len(),
{
    if s.len() > 0 && s.last() == 0x20 {
        let t = s.drop_last();
        assert forall|j: int| t.len() - (i - 1) <= j < t.len() implies t[j] == 0x20 by {
            assert(t[j] == s[j]);
        }
        if i - 1 < t.len() {
            assert(t[t.len() - (i - 1) - 1] == s[s.len() - i - 1]);
        }
        lemma_trail_spaces_characterization(t, i - 1);
    }
}

/// Copies `s` with leading and trailing spaces removed.
pub fn trim_spaces(s: &Vec<u8>) -> (r: Vec<u8>)
    ensures
        r@ == trimmed(s@),
{
    let n = s.len();
    let mut a: usize = 0;
    while a < n && s[a] == 0x20
        invariant
            a <= n,
            n == s@.len(),
            forall|j: int| 0 <= j < a ==> s@[j] == 0x20,
        decreases n - a,
    {
        a = a + 1;
    }
    proof {
        lemma_lead_spaces_characterization(s@, a as int);
    }
    if a == n {
        let r: Vec<u8> = Vec::new();
        assert(r@ =~= trimmed(s@));
        return r;
    }
    let mut b: usize = n;
    while b > a && s[b - 1] == 0x20
        invariant
            a <= b <= n,
            n == s@.len(),
            forall|j: int| b <= j < n ==> s@[j] == 0x20,
            forall|j: int| 0 <= j < a ==> s@[j] == 0x20,
            s@[a as int] != 0x20,
        decreases b,
    {
        b = b - 1;
    }
    proof {
        assert(b > a);
        assert(s@[b - 1] != 0x20);
        lemma_trail_spaces_characterization(s@, n - b);
    }
    let r = crate::codec::read_chunk(s, a, b - a);
    assert(r@ =~= trimmed(s@));
    r
}

/// The broadcast chat line: `&7<name>:&f <text>`. The codec truncates it
/// to the 64 wire bytes.
pub open spec fn chat_line(name: Seq<u8>, text: Seq<u8>) -> Seq<u8> {
    seq![0x26u8, 0x37u8] + name + seq![0x3au8, 0x26u8, 0x66u8, 0x20u8] + text
}

/// The red reply `&cCould not find player `<name>``.
pub open spec fn not_found_text(name: Seq<u8>) -> Seq<u8> {
    seq![
        0x26u8,
        0x63,
        0x43,
        0x6f,
        0x75,
        0x6c,
        0x64,
        0x20,
        0x6e,
        0x6f,
        0x74,
        0x20,
        0x66,
        0x69,
        0x6e,
        0x64,
        0x20,
        0x70,
        0x6c,
        0x61,
        0x79,
        0x65,
        0x72,
        0x20,
        0x60,
    ] + name + seq![0x60u8]
}

/// The red reply `&c`<line>`` followed by a diagnosis suffix.
pub open spec fn command_error_text(line: Seq<u8>, suffix: Seq<u8>) -> Seq<u8> {
    seq![0x26u8, 0x63u8, 0x60u8] + line + suffix
}

/// `` ` is not a command``.
pub open spec fn no_command_suffix() -> Seq<u8> {
    seq![
        0x60u8,
        0x20,
        0x69,
        0x73,
        0x20,
        0x6e,
        0x6f,
        0x74,
        0x20,
        0x61,
        0x20,
        0x63,
        0x6f,
        0x6d,
        0x6d,
        0x61,
        0x6e,
        0x64,
    ]
}

/// `` ` is not known``.
pub open spec fn not_known_suffix() -> Seq<u8> {
    seq![0x60u8, 0x20, 0x69, 0x73, 0x20, 0x6e, 0x6f, 0x74, 0x20, 0x6b, 0x6e, 0x6f, 0x77, 0x6e]
}

/// `` ` has too many arguments``.
pub open spec fn too_many_suffix() -> Seq<u8> {
    seq![
        0x60u8,
        0x20,
        0x68,
        0x61,
        0x73,
        0x20,
        0x74,
        0x6f,
        0x6f,
        0x20,
        0x6d,
        0x61,
        0x6e,
        0x79,
        0x20,
        0x61,
        0x72,
        0x67,
        0x75,
        0x6d,
        0x65,
        0x6e,
        0x74,
        0x73,
    ]
}

/// `` ` has not enough arguments``.
pub open spec fn not_enough_suffix() -> Seq<u8> {
    seq![
        0x60u8,
        0x20,
        0x68,
        0x61,
        0x73,
        0x20,
        0x6e,
        0x6f,
        0x74,
        0x20,
        0x65,
        0x6e,
        0x6f,
        0x75,
        0x67,
        0x68,
        0x20,
        0x61,
        0x72,
        0x67,
        0x75,
        0x6d,
        0x65,
        0x6e,
        0x74,
        0x73,
    ]
}

} // verus!
