//! A small string interner: each distinct string is stored once, in one byte blob.
use vstd::prelude::*;
use vstd::string::StringSliceAdditionalSpecFns;
use vstd::utf8::{decode_utf8, encode_utf8_decode_utf8, valid_utf8};

use crate::debug_text::{
    ascii_debug, comma_joined, debug_ascii, debug_str, lemma_comma_joined_push, str_debug,
};
use vstd::utf8::is_ascii_chars;

verus! {

/// Where one interned string lies in the blob.
#[derive(Clone, Copy, Debug)]
pub struct Span {
    off: u16,
    len: u16,
}

/// An interner of at most `CAP` strings whose bytes together take at most `CAP` bytes.
#[derive(Clone, Debug)]
pub struct StringInterner<const CAP: usize> {
    blob: Vec<u8>,
    spans: Vec<Span>,
}

/// Whether interning `s` into `strings` stays within a capacity of `cap`: either `s`
/// is there already, or there is room for one more string and for its bytes.
pub open spec fn intern_fits(strings: Seq<Seq<u8>>, s: Seq<u8>, cap: int) -> bool {
    ||| strings.contains(s)
    ||| (strings.flatten().len() + s.len() <= cap && strings.len() < cap)
}

/// The strings after interning `s`, and the index that interning returns: the index
/// where `s` already is, or else `s` added at the end.
pub open spec fn interned(strings: Seq<Seq<u8>>, s: Seq<u8>) -> (Seq<Seq<u8>>, int) {
    if strings.contains(s) {
        (strings, strings.index_of(s))
    } else {
        (strings.push(s), strings.len() as int)
    }
}

/// Interning keeps the strings distinct, keeps each earlier string at its index, and
/// gives an index where the interned string now stands.
pub proof fn lemma_interned(strings: Seq<Seq<u8>>, s: Seq<u8>)
    requires
        strings.no_duplicates(),
    ensures
        interned(strings, s).0.no_duplicates(),
        0 <= interned(strings, s).1 < interned(strings, s).0.len(),
        interned(strings, s).0[interned(strings, s).1] == s,
        strings.len() <= interned(strings, s).0.len(),
        forall|k: int| 0 <= k < strings.len() ==> interned(strings, s).0[k] == strings[k],
{
    if strings.contains(s) {
        let c = strings.index_of(s);
        assert(strings[c] == s);
    } else {
        assert forall|i: int, j: int|
            0 <= i < strings.len() + 1 && 0 <= j < strings.len() + 1 && i != j implies strings.push(
            s,
        )[i] != strings.push(s)[j] by {
            if i < strings.len() && j < strings.len() {
                assert(strings[i] != strings[j]);
            }
        }
    }
}

/// Interning adds at most one string and its bytes, keeps every string that was
/// there, and leaves the strings as they were where the string was there already.
pub proof fn lemma_interned_room(strings: Seq<Seq<u8>>, s: Seq<u8>)
    requires
        strings.no_duplicates(),
    ensures
        interned(strings, s).0.len() <= strings.len() + 1,
        interned(strings, s).0.flatten().len() <= strings.flatten().len() + s.len(),
        interned(strings, s).0.contains(s),
        forall|c: Seq<u8>| strings.contains(c) ==> #[trigger] interned(strings, s).0.contains(c),
        strings.contains(s) ==> interned(strings, s).0 == strings,
{
    lemma_interned(strings, s);
    let n = interned(strings, s).0;
    assert(n[interned(strings, s).1] == s);
    if !strings.contains(s) {
        strings.lemma_flatten_push(s);
    }
    assert forall|c: Seq<u8>| strings.contains(c) implies #[trigger] n.contains(c) by {
        let k = choose|k: int| 0 <= k < strings.len() && strings[k] == c;
        assert(n[k] == c);
    }
}

/// Interning a string again changes nothing and gives the same index: the index of
/// the first interning.
pub proof fn lemma_intern_idempotent(strings: Seq<Seq<u8>>, s: Seq<u8>)
    requires
        strings.no_duplicates(),
    ensures
        interned(interned(strings, s).0, s) == interned(strings, s),
{
    lemma_interned(strings, s);
    let (s1, i1) = interned(strings, s);
    assert(s1.contains(s));
    let c = s1.index_of(s);
    assert(s1[c] == s);
    if c != i1 {
        assert(s1[c] != s1[i1]);
    }
}

/// Two distinct strings interned one after the other get distinct indices, and the
/// first keeps its index: reading each index back gives its string.
pub proof fn lemma_intern_distinct(strings: Seq<Seq<u8>>, a: Seq<u8>, b: Seq<u8>)
    requires
        strings.no_duplicates(),
        a != b,
    ensures
        interned(strings, a).1 != interned(interned(strings, a).0, b).1,
        interned(interned(strings, a).0, b).0[interned(strings, a).1] == a,
        interned(interned(strings, a).0, b).0[interned(interned(strings, a).0, b).1] == b,
{
    lemma_interned(strings, a);
    lemma_interned(interned(strings, a).0, b);
}

/// What `{:?}` writes for a string slice with chars `s`: for ASCII chars as
/// `ascii_debug` spells out, else as std's `Debug` for `str` gives it.
pub open spec fn str_text(s: Seq<char>) -> Seq<char> {
    if is_ascii_chars(s) {
        ascii_debug(s)
    } else {
        str_debug(s)
    }
}

/// The text that `{:?}` writes for an interner that holds `strings`: each string, as
/// `{:?}` writes a string slice, in a list after the name.
pub open spec fn interner_debug(strings: Seq<Seq<u8>>) -> Seq<char> {
    "StringInterner { values: ["@ + comma_joined(
        strings.map_values(|b: Seq<u8>| str_text(decode_utf8(b))),
    ) + "] }"@
}

impl<const CAP: usize> View for StringInterner<CAP> {
    type V = Seq<Seq<u8>>;

    /// The interned strings, as bytes, in the order they were first interned.
    closed spec fn view(&self) -> Seq<Seq<u8>> {
        Seq::new(
            self.spans@.len(),
            |k: int| self.blob@.subrange(self.spans@[k].off as int, self.spans@[k].off + self.spans@[k].len),
        )
    }
}

impl<const CAP: usize> StringInterner<CAP> {
    /// The interner's invariant: the blob is the strings one after the other, no
    /// string occurs twice, each is UTF-8, and all fits the capacity.
    pub closed spec fn wf(&self) -> bool {
        &&& CAP <= 0xFFFF
        &&& self.blob@.len() <= CAP
        &&& self.spans@.len() <= CAP
        &&& forall|k: int|
            0 <= k < self.spans@.len() ==> #[trigger] self.spans@[k].off + self.spans@[k].len
                <= self.blob@.len()
        &&& self.blob@ == self@.flatten()
        &&& self@.no_duplicates()
        &&& forall|k: int| 0 <= k < self@.len() ==> valid_utf8(#[trigger] self@[k])
    }

    /// An interner that holds no string.
    pub fn new() -> (r: Self)
        requires
            CAP <= 0xFFFF,
        ensures
            r.wf(),
            r@ == Seq::<Seq<u8>>::empty(),
    {
        let r = Self { blob: Vec::new(), spans: Vec::new() };
        assert(r@ =~= Seq::<Seq<u8>>::empty());
        r
    }

    /// Interns `s`: returns the interner that holds it and its index.
    pub fn intern(self, s: &str) -> (res: (Self, u16))
        requires
            self.wf(),
            intern_fits(self@, s.spec_bytes(), CAP as int),
        ensures
            res.0.wf(),
            res.0@ == interned(self@, s.spec_bytes()).0,
            res.1 as int == interned(self@, s.spec_bytes()).1,
            res.1 < res.0@.len(),
            res.0@[res.1 as int] == s.spec_bytes(),
            self@.contains(s.spec_bytes()) ==> res.0 == self,
            forall|j: int|
                0 <= j < self@.len() && self@[j] == s.spec_bytes() ==> res.1 == j,
    {
        proof {
            lemma_interned(self@, s.spec_bytes());
        }
        let mut this = self;
        let sb = s.as_bytes();
        let ghost b = sb@;
        let n = this.spans.len();
        let mut k: usize = 0;
        while k < n
            invariant
                this == self,
                this.wf(),
                n == this.spans@.len(),
                sb@ == b,
                b == s.spec_bytes(),
                k <= n,
                forall|j: int| 0 <= j < k ==> this@[j] != b,
            decreases n - k,
        {
            let sp = this.spans[k];
            assert(sp.off + sp.len <= this.blob@.len());
            if sp.len as usize == sb.len() {
                let mut i: usize = 0;
                let mut eq = true;
                while i < sb.len() && eq
                    invariant
                        this.wf(),
                        sb@ == b,
                        sp.off + sp.len <= this.blob@.len(),
                        sp.len == b.len(),
                        i <= b.len(),
                        eq ==> forall|t: int| 0 <= t < i ==> this.blob@[sp.off + t] == b[t],
                        !eq ==> exists|t: int| 0 <= t < b.len() && this.blob@[sp.off + t] != b[t],
                    decreases b.len() - i + (if eq { 1int } else { 0int }),
                {
                    if this.blob[sp.off as usize + i] != sb[i] {
                        eq = false;
                    } else {
                        i = i + 1;
                    }
                }
                assert(this@[k as int] == this.blob@.subrange(sp.off as int, sp.off + sp.len));
                if eq {
                    assert(this@[k as int] =~= b);
                    proof {
                        assert(this@.contains(b));
                        let c = this@.index_of(b);
                        assert(this@[c] == b);
                        assert(this@.no_duplicates());
                        if c != k as int {
                            assert(this@[c] != this@[k as int]);
                        }
                        assert(c == k as int);
                    }
                    return (this, k as u16);
                } else {
                    assert(this@[k as int] != b) by {
                        let t = choose|t: int| 0 <= t < b.len() && this.blob@[sp.off + t] != b[t];
                        assert(this@[k as int][t] != b[t]);
                    }
                }
            }
            k = k + 1;
        }
        assert(!this@.contains(b));
        let ghost old_blob = this.blob@;
        let ghost old_view = this@;
        let off = this.blob.len();
        let mut i: usize = 0;
        while i < sb.len()
            invariant
                sb@ == b,
                off == old_blob.len(),
                i <= b.len(),
                this.blob@ == old_blob + b.subrange(0, i as int),
                this.spans == self.spans,
                off + b.len() <= CAP,
            decreases b.len() - i,
        {
            this.blob.push(sb[i]);
            i = i + 1;
            assert(this.blob@ =~= old_blob + b.subrange(0, i as int));
        }
        assert(b.subrange(0, b.len() as int) =~= b);
        let idx = this.spans.len();
        this.spans.push(Span { off: off as u16, len: sb.len() as u16 });
        assert(this@ =~= old_view.push(b)) by {
            assert forall|j: int| 0 <= j < old_view.len() implies this@[j] == old_view[j] by {
                assert(this.spans@[j] == self.spans@[j]);
                assert(this.blob@.subrange(this.spans@[j].off as int, this.spans@[j].off + this.spans@[j].len)
                    =~= old_blob.subrange(this.spans@[j].off as int, this.spans@[j].off + this.spans@[j].len));
            }
            assert(this@[idx as int] =~= b);
        }
        proof {
            old_view.lemma_flatten_push(b);
            vstd::utf8::encode_utf8_valid_utf8(s@);
            assert(forall|j: int| 0 <= j < old_view.len() ==> old_view[j] != b);
        }
        (this, idx as u16)
    }

    /// What the invariant gives callers: the strings are pairwise distinct and UTF-8,
    /// and their bytes together fit the capacity.
    pub proof fn lemma_wf(&self)
        requires
            self.wf(),
        ensures
            self@.no_duplicates(),
            forall|k: int| 0 <= k < self@.len() ==> valid_utf8(#[trigger] self@[k]),
            self@.flatten().len() <= CAP,
            self@.len() <= CAP,
    {
    }

    /// The interned strings, in the order they were first interned.
    pub fn values(&self) -> (out: Vec<&str>)
        requires
            self.wf(),
        ensures
            out@.len() == self@.len(),
            forall|k: int| 0 <= k < self@.len() ==> (#[trigger] out@[k]).spec_bytes() == self@[k],
    {
        let mut out: Vec<&str> = Vec::new();
        let n = self.spans.len();
        let mut i: usize = 0;
        while i < n
            invariant
                self.wf(),
                n == self@.len(),
                i <= n,
                out@.len() == i,
                forall|k: int| 0 <= k < i ==> (#[trigger] out@[k]).spec_bytes() == self@[k],
            decreases n - i,
        {
            out.push(self.str_at(i as u16));
            i = i + 1;
        }
        out
    }

    /// The text that `{:?}` writes for this interner: its strings, in order.
    pub fn debug_string(&self) -> (r: String)
        requires
            self.wf(),
        ensures
            r@ == interner_debug(self@),
    {
        let ghost items = self@.map_values(|b: Seq<u8>| str_text(decode_utf8(b)));
        let mut out = String::from_str("StringInterner { values: [");
        let ghost head = out@;
        let n = self.spans.len();
        let mut i: usize = 0;
        while i < n
            invariant
                self.wf(),
                n == self@.len(),
                i <= n,
                items == self@.map_values(|b: Seq<u8>| str_text(decode_utf8(b))),
                head == "StringInterner { values: ["@,
                out@ == head + comma_joined(items.take(i as int)),
            decreases n - i,
        {
            if i > 0 {
                out.append(", ");
            }
            let s = self.str_at(i as u16);
            let d = if s.is_ascii() {
                debug_ascii(s)
            } else {
                debug_str(s)
            };
            out.append(d.as_str());
            proof {
                encode_utf8_decode_utf8(s@);
                assert(items[i as int] == d@);
                assert(items.take(i as int + 1) =~= items.take(i as int).push(items[i as int]));
                lemma_comma_joined_push(items.take(i as int), items[i as int]);
                let done = comma_joined(items.take(i as int));
                if i > 0 {
                    assert(out@ =~= head + (done + ", "@ + d@));
                } else {
                    assert(done =~= Seq::<char>::empty());
                    assert(out@ =~= head + d@);
                }
            }
            i = i + 1;
        }
        out.append("] }");
        assert(items.take(n as int) =~= items);
        assert(out@ =~= interner_debug(self@));
        out
    }

    /// The string at index `i`.
    pub fn str_at(&self, i: u16) -> (s: &str)
        requires
            self.wf(),
            i < self@.len(),
        ensures
            s.spec_bytes() == self@[i as int],
    {
        let sp = self.spans[i as usize];
        assert(sp.off + sp.len <= self.blob@.len());
        let bytes = &self.blob.as_slice()[sp.off as usize..sp.off as usize + sp.len as usize];
        assert(bytes@ == self@[i as int]);
        str_from_utf8(bytes)
    }
}

/// Calls `core::str::from_utf8`. Its documentation says that it returns the string
/// slice whose bytes are `v` when `v` is valid UTF-8; the contract claims that, and
/// the caller shows validity.
#[verifier::external_body]
fn str_from_utf8(v: &[u8]) -> (s: &str)
    requires
        valid_utf8(v@),
    ensures
        s.spec_bytes() == v@,
{
    core::str::from_utf8(v).unwrap()
}

} // verus!
