//! One line of the disassembly listing. The disassembler marks a jump label as
//! `<l>name</l>` and a plain address as `<a>$1234</a>`; the listing removes the
//! markers and keeps where the marked text lies, to colour it.
use vstd::prelude::*;

verus! {

/// Whether `pat` occurs in `s` at index `i`.
pub open spec fn occurs_at(s: Seq<u8>, pat: Seq<u8>, i: int) -> bool {
    &&& 0 <= i
    &&& i + pat.len() <= s.len()
    &&& forall|k: int| 0 <= k < pat.len() ==> #[trigger] s[i + k] == pat[k]
}

/// The first index at or after `i` where `pat` occurs in `s`.
pub open spec fn find_from(s: Seq<u8>, pat: Seq<u8>, i: int) -> Option<int>
    decreases s.len() - i,
{
    if i < 0 || i + pat.len() > s.len() {
        None
    } else if occurs_at(s, pat, i) {
        Some(i)
    } else {
        find_from(s, pat, i + 1)
    }
}

/// `s` without the bytes in `a..b`.
pub open spec fn cut(s: Seq<u8>, a: int, b: int) -> Seq<u8> {
    s.subrange(0, a) + s.subrange(b, s.len() as int)
}

/// Whether a UTF-8 text may be split at byte `i`: at its end, or before a byte that
/// does not continue a character.
pub open spec fn char_boundary(s: Seq<u8>, i: int) -> bool {
    i == s.len() || (0 <= i < s.len() && (s[i] < 0x80 || s[i] >= 0xC0))
}

/// The opening marker of a jump label, `<l>`.
pub open spec fn label_open() -> Seq<u8> {
    seq![60u8, 108u8, 62u8]
}

/// The closing marker of a jump label, `</l>`.
pub open spec fn label_close() -> Seq<u8> {
    seq![60u8, 47u8, 108u8, 62u8]
}

/// The opening marker of an address, `<a>`.
pub open spec fn address_open() -> Seq<u8> {
    seq![60u8, 97u8, 62u8]
}

/// The closing marker of an address, `</a>`.
pub open spec fn address_close() -> Seq<u8> {
    seq![60u8, 47u8, 97u8, 62u8]
}

/// Where the marked text starts and ends once the markers `open` (three bytes) and
/// `close` (four bytes) are removed: it starts where `open` was first found and
/// ends three bytes before where `close` was first found.
pub open spec fn marked_range(s: Seq<u8>, open: Seq<u8>, close: Seq<u8>) -> Option<(int, int)> {
    match find_from(s, open, 0) {
        Some(start) => match find_from(s, close, 0) {
            Some(c) => Some((start, c - 3)),
            None => None,
        },
        None => None,
    }
}

/// `s` with the first `open` marker and then the first `close` marker (found before
/// the first removal) taken out.
pub open spec fn strip_marker(s: Seq<u8>, open: Seq<u8>, close: Seq<u8>) -> Seq<u8> {
    match marked_range(s, open, close) {
        Some((start, end)) => cut(cut(s, start, start + 3), end, end + 4),
        None => s,
    }
}

/// Whether the markers of `s` can be removed: with an `open` marker, a `close`
/// marker is found at index 3 or later, and each removed range starts and ends at
/// a character boundary.
pub open spec fn marker_removable(s: Seq<u8>, open: Seq<u8>, close: Seq<u8>) -> bool {
    match find_from(s, open, 0) {
        Some(start) => match find_from(s, close, 0) {
            Some(c) => {
                let t = cut(s, start, start + 3);
                &&& c >= 3
                &&& char_boundary(s, start)
                &&& char_boundary(s, start + 3)
                &&& char_boundary(t, c - 3)
                &&& char_boundary(t, c + 1)
            },
            None => false,
        },
        None => true,
    }
}

/// The listing text without its label markers.
pub open spec fn without_label(s: Seq<u8>) -> Seq<u8> {
    strip_marker(s, label_open(), label_close())
}

/// The listing text without its label and address markers.
pub open spec fn listing_text(s: Seq<u8>) -> Seq<u8> {
    strip_marker(without_label(s), address_open(), address_close())
}

/// The column where the mnemonic starts: after four address digits, a space, a
/// sixteen-column label and a space.
pub open spec fn mnemonic_column() -> int {
    22
}

/// Whether `s` is a listing line that the listing can mark up: its markers can be
/// removed, and what is left holds a space after the mnemonic column, which is a
/// character boundary.
pub open spec fn listing_line_ok(s: Seq<u8>) -> bool {
    let t = listing_text(s);
    &&& marker_removable(s, label_open(), label_close())
    &&& marker_removable(without_label(s), address_open(), address_close())
    &&& char_boundary(t, mnemonic_column())
    &&& find_from(t, seq![32u8], mnemonic_column()) is Some
}

/// A listing line with its markers removed and the ranges to colour.
pub struct ListingLine {
    /// The text to show.
    pub text: Vec<u8>,
    /// The range of the jump label, where the line has one.
    pub label: Option<(usize, usize)>,
    /// The range of the plain address, where the line has one.
    pub address: Option<(usize, usize)>,
    /// The length of the mnemonic, which starts at column 22.
    pub mnemonic_len: usize,
}

/// The address shown for a location of the cartridge: a location of a switchable
/// bank other than bank 0 below 0x4000 is shown in the bank area from 0x4000.
pub fn shown_address(address: u16, bank: u16) -> (r: u16)
    ensures
        r == (if address < 0x4000 && bank != 0 {
            address + 0x4000
        } else {
            address as int
        }),
{
    if address < 0x4000 && bank != 0 {
        address + 0x4000
    } else {
        address
    }
}

proof fn lemma_find_from_occurs(s: Seq<u8>, pat: Seq<u8>, i: int)
    ensures
        find_from(s, pat, i) matches Some(j) ==> i <= j && occurs_at(s, pat, j),
    decreases s.len() - i,
{
    if !(i < 0 || i + pat.len() > s.len()) && !occurs_at(s, pat, i) {
        lemma_find_from_occurs(s, pat, i + 1);
    }
}

/// The first index at or after `from` where `pat` occurs in `s`.
fn find_bytes(s: &Vec<u8>, pat: &[u8], from: usize) -> (r: Option<usize>)
    ensures
        match r {
            Some(i) => find_from(s@, pat@, from as int) == Some(i as int),
            None => find_from(s@, pat@, from as int) is None,
        },
{
    let n = s.len();
    let m = pat.len();
    if m > n || from > n - m {
        return None;
    }
    let mut i = from;
    while i <= n - m
        invariant
            n == s@.len(),
            m == pat@.len(),
            m <= n,
            from <= i,
            find_from(s@, pat@, from as int) == find_from(s@, pat@, i as int),
        decreases n - i,
    {
        let mut k: usize = 0;
        let mut matched = true;
        while k < m
            invariant
                n == s@.len(),
                m == pat@.len(),
                i + m <= n,
                k <= m,
                matched == (forall|j: int| 0 <= j < k ==> #[trigger] s@[i + j] == pat@[j]),
            decreases m - k,
        {
            if s[i + k] != pat[k] {
                matched = false;
            }
            k = k + 1;
        }
        if matched {
            return Some(i);
        }
        assert(!occurs_at(s@, pat@, i as int));
        assert(find_from(s@, pat@, i as int) == find_from(s@, pat@, i + 1));
        if i == n - m {
            assert(find_from(s@, pat@, i + 1) is None);
            return None;
        }
        i = i + 1;
    }
    None
}

/// `s` without the bytes in `a..b`.
fn cut_bytes(s: &Vec<u8>, a: usize, b: usize) -> (r: Vec<u8>)
    requires
        a <= b <= s@.len(),
    ensures
        r@ == cut(s@, a as int, b as int),
{
    let mut r: Vec<u8> = Vec::new();
    let mut i: usize = 0;
    while i < a
        invariant
            a <= b <= s@.len(),
            i <= a,
            r@ == s@.subrange(0, i as int),
        decreases a - i,
    {
        r.push(s[i]);
        i = i + 1;
    }
    let mut j: usize = b;
    while j < s.len()
        invariant
            a <= b <= j <= s@.len(),
            r@ == s@.subrange(0, a as int) + s@.subrange(b as int, j as int),
        decreases s@.len() - j,
    {
        r.push(s[j]);
        j = j + 1;
    }
    r
}

/// Removes the first `open` marker (three bytes) and the first `close` marker (four
/// bytes), and gives the range of the text between them.
fn strip_marker_bytes(s: Vec<u8>, open: &[u8], close: &[u8]) -> (r: (Vec<u8>, Option<(usize, usize)>))
    requires
        open@.len() == 3,
        close@.len() == 4,
        marker_removable(s@, open@, close@),
    ensures
        r.0@ == strip_marker(s@, open@, close@),
        match r.1 {
            Some((a, b)) => marked_range(s@, open@, close@) == Some((a as int, b as int)),
            None => marked_range(s@, open@, close@) is None,
        },
{
    match find_bytes(&s, open, 0) {
        None => (s, None),
        Some(start) => {
            let c = find_bytes(&s, close, 0).unwrap();
            proof {
                lemma_find_from_occurs(s@, open@, 0);
                lemma_find_from_occurs(s@, close@, 0);
            }
            let end = c - 3;
            let t = cut_bytes(&s, start, start + 3);
            let u = cut_bytes(&t, end, end + 4);
            (u, Some((start, end)))
        },
    }
}

/// The line `text` of the listing with its markers removed, the ranges of its jump
/// label and of its plain address, and the length of its mnemonic.
pub fn listing_line(text: Vec<u8>) -> (r: ListingLine)
    requires
        listing_line_ok(text@),
    ensures
        r.text@ == listing_text(text@),
        match r.label {
            Some((a, b)) => marked_range(text@, label_open(), label_close()) == Some(
                (a as int, b as int),
            ),
            None => marked_range(text@, label_open(), label_close()) is None,
        },
        match r.address {
            Some((a, b)) => marked_range(without_label(text@), address_open(), address_close())
                == Some((a as int, b as int)),
            None => marked_range(without_label(text@), address_open(), address_close()) is None,
        },
        find_from(listing_text(text@), seq![32u8], mnemonic_column()) == Some(
            mnemonic_column() + r.mnemonic_len,
        ),
{
    let l_open: [u8; 3] = [60, 108, 62];
    let l_close: [u8; 4] = [60, 47, 108, 62];
    let a_open: [u8; 3] = [60, 97, 62];
    let a_close: [u8; 4] = [60, 47, 97, 62];
    assert(l_open@ =~= label_open());
    assert(l_close@ =~= label_close());
    assert(a_open@ =~= address_open());
    assert(a_close@ =~= address_close());
    let (t, label) = strip_marker_bytes(text, &l_open, &l_close);
    let (u, address) = strip_marker_bytes(t, &a_open, &a_close);
    let space: [u8; 1] = [32];
    assert(space@ =~= seq![32u8]);
    let at = find_bytes(&u, &space, 22).unwrap();
    proof {
        lemma_find_from_occurs(u@, space@, 22);
    }
    ListingLine { text: u, label, address, mnemonic_len: at - 22 }
}

} // verus!
