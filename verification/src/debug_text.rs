//! The text that `{:?}` writes for the interner and for template paths.
use vstd::prelude::*;
use vstd::string::{is_ascii, StrSliceExecFns, StringExecFns};
use vstd::utf8::is_ascii_chars;

verus! {

/// What `{:?}` writes for a string slice whose chars are `s`.
pub uninterp spec fn str_debug(s: Seq<char>) -> Seq<char>;

/// The lowercase hexadecimal digit of `d` (`0 <= d < 16`).
pub open spec fn hex_digit(d: int) -> char {
    if d < 10 {
        (48 + d) as char
    } else {
        (87 + d) as char
    }
}

/// How `{:?}` writes one ASCII char inside a string: a backslash before `\` and `"`,
/// `\n`, `\r`, `\t` and `\0` for those controls, the other printable chars (the single
/// quote among them) as they are, and the other controls as `\u{..}` in hexadecimal.
pub open spec fn ascii_char_debug(c: char) -> Seq<char> {
    if c == '\\' {
        seq!['\\', '\\']
    } else if c == '"' {
        seq!['\\', '"']
    } else if c == '\n' {
        seq!['\\', 'n']
    } else if c == '\r' {
        seq!['\\', 'r']
    } else if c == '\t' {
        seq!['\\', 't']
    } else if c == '\0' {
        seq!['\\', '0']
    } else if ' ' <= c && c <= '~' {
        seq![c]
    } else if (c as int) < 16 {
        seq!['\\', 'u', '{', hex_digit(c as int), '}']
    } else {
        seq!['\\', 'u', '{', hex_digit(c as int / 16), hex_digit(c as int % 16), '}']
    }
}

/// The chars of `s`, each written as `{:?}` writes it inside a string.
pub open spec fn ascii_chars_debug(s: Seq<char>) -> Seq<char>
    decreases s.len(),
{
    if s.len() == 0 {
        Seq::empty()
    } else {
        ascii_chars_debug(s.drop_last()) + ascii_char_debug(s.last())
    }
}

/// What `{:?}` writes for a string of ASCII chars `s`: `s` between double quotes, each
/// char written as `ascii_char_debug` says.
pub open spec fn ascii_debug(s: Seq<char>) -> Seq<char> {
    seq!['"'] + ascii_chars_debug(s) + seq!['"']
}

/// Formats `s` with `{:?}`, the `Debug` impl of `str` in std. Its documentation (that
/// of `char::escape_debug`, which it follows) describes the quoting and the escapes:
/// for ASCII chars the contract states them; for other chars they rest on Unicode
/// tables, and the contract only names the result, as a function of the chars of `s`.
#[verifier::external_body]
pub(crate) fn debug_str(s: &str) -> (r: String)
    ensures
        r@ == str_debug(s@),
        is_ascii_chars(s@) ==> r@ == ascii_debug(s@),
{
    format!("{:?}", s)
}

/// The text that `{:?}` writes for a string of ASCII chars.
pub fn debug_ascii(s: &str) -> (r: String)
    requires
        is_ascii(s),
    ensures
        r@ == ascii_debug(s@),
{
    let hex = "0123456789abcdef";
    proof {
        reveal_strlit("0123456789abcdef");
        reveal_strlit("\"");
        assert forall|d: int| 0 <= d < 16 implies #[trigger] hex@[d] == hex_digit(d) by {
            if d == 0 {} else if d == 1 {} else if d == 2 {} else if d == 3 {} else if d == 4 {}
            else if d == 5 {} else if d == 6 {} else if d == 7 {} else if d == 8 {} else if d == 9 {}
            else if d == 10 {} else if d == 11 {} else if d == 12 {} else if d == 13 {}
            else if d == 14 {} else {}
        }
        assert(is_ascii(hex));
    }
    let n = s.unicode_len();
    let mut out = String::from_str("\"");
    let mut i: usize = 0;
    while i < n
        invariant
            n == s@.len(),
            i <= n,
            is_ascii(s),
            is_ascii(hex),
            hex@.len() == 16,
            forall|d: int| 0 <= d < 16 ==> #[trigger] hex@[d] == hex_digit(d),
            out@ == seq!['"'] + ascii_chars_debug(s@.take(i as int)),
        decreases n - i,
    {
        let c = s.get_char(i);
        let ghost before = out@;
        proof {
            reveal_strlit("\\\\");
            reveal_strlit("\\\"");
            reveal_strlit("\\n");
            reveal_strlit("\\r");
            reveal_strlit("\\t");
            reveal_strlit("\\0");
            reveal_strlit("\\u{");
            reveal_strlit("}");
        }
        if c == '\\' {
            out.append("\\\\");
        } else if c == '"' {
            out.append("\\\"");
        } else if c == '\n' {
            out.append("\\n");
        } else if c == '\r' {
            out.append("\\r");
        } else if c == '\t' {
            out.append("\\t");
        } else if c == '\0' {
            out.append("\\0");
        } else if ' ' <= c && c <= '~' {
            let one = s.substring_ascii(i, i + 1);
            assert(one@ =~= seq![c]);
            out.append(one);
        } else {
            let v = c as u32;
            assert(v as int == c as int);
            assert(v < 128);
            out.append("\\u{");
            assert("\\u{"@ =~= seq!['\\', 'u', '{']);
            assert(out@ =~= before + seq!['\\', 'u', '{']);
            let ghost mid = out@;
            if v >= 16 {
                let h = (v / 16) as usize;
                let hd = hex.substring_ascii(h, h + 1);
                assert(hd@ =~= seq![hex_digit(c as int / 16)]);
                out.append(hd);
            }
            let l = (v % 16) as usize;
            let ld = hex.substring_ascii(l, l + 1);
            assert(ld@ =~= seq![hex_digit(c as int % 16)]);
            out.append(ld);
            let ghost low = out@;
            out.append("}");
            assert("}"@ =~= seq!['}']);
            assert(out@ =~= low + seq!['}']);
            if v >= 16 {
                assert(out@ =~= before + seq!['\\', 'u', '{', hex_digit(c as int / 16), hex_digit(c as int % 16), '}']);
            } else {
                assert(out@ =~= before + seq!['\\', 'u', '{', hex_digit(c as int), '}']);
            }
        }
        proof {
            let t = s@.take(i as int + 1);
            assert(t.drop_last() =~= s@.take(i as int));
            assert(t.last() == c);
            assert(out@ =~= before + ascii_char_debug(c));
        }
        i = i + 1;
    }
    out.append("\"");
    assert(s@.take(n as int) =~= s@);
    out
}

/// Escaping goes char by char: the text of two strings one after the other is the
/// text of the first and then that of the second.
pub proof fn lemma_ascii_chars_debug_concat(s: Seq<char>, t: Seq<char>)
    ensures
        ascii_chars_debug(s + t) == ascii_chars_debug(s) + ascii_chars_debug(t),
    decreases t.len(),
{
    if t.len() == 0 {
        assert(s + t =~= s);
    } else {
        assert((s + t).drop_last() =~= s + t.drop_last());
        assert((s + t).last() == t.last());
        lemma_ascii_chars_debug_concat(s, t.drop_last());
    }
}

/// A string of printable ASCII chars other than `"` and `\` (single quotes among them)
/// is written as it is, between double quotes: nothing in it is escaped.
pub proof fn lemma_ascii_debug_plain(s: Seq<char>)
    requires
        forall|i: int|
            0 <= i < s.len() ==> ' ' <= #[trigger] s[i] <= '~' && s[i] != '"' && s[i] != '\\',
    ensures
        ascii_debug(s) == seq!['"'] + s + seq!['"'],
    decreases s.len(),
{
    lemma_ascii_plain_chars(s);
}

proof fn lemma_ascii_plain_chars(s: Seq<char>)
    requires
        forall|i: int|
            0 <= i < s.len() ==> ' ' <= #[trigger] s[i] <= '~' && s[i] != '"' && s[i] != '\\',
    ensures
        ascii_chars_debug(s) == s,
    decreases s.len(),
{
    if s.len() > 0 {
        let r = s.drop_last();
        assert forall|i: int| 0 <= i < r.len() implies ' ' <= #[trigger] r[i] <= '~' && r[i] != '"'
            && r[i] != '\\' by {
            assert(r[i] == s[i]);
        }
        lemma_ascii_plain_chars(r);
        let c = s.last();
        assert(s[s.len() - 1] == c);
        assert(ascii_char_debug(c) == seq![c]);
        assert(r + seq![c] =~= s);
    }
}

/// Each char that is not written as it is starts with a backslash: the six named
/// escapes are a backslash and one char, and the other controls a backslash, `u` and
/// the code in braces.
pub proof fn lemma_ascii_char_debug_escapes(c: char)
    ensures
        c == '\n' ==> ascii_char_debug(c) == seq!['\\', 'n'],
        c == '\r' ==> ascii_char_debug(c) == seq!['\\', 'r'],
        c == '\t' ==> ascii_char_debug(c) == seq!['\\', 't'],
        c == '\0' ==> ascii_char_debug(c) == seq!['\\', '0'],
        c == '\\' ==> ascii_char_debug(c) == seq!['\\', '\\'],
        c == '"' ==> ascii_char_debug(c) == seq!['\\', '"'],
        c == '\'' ==> ascii_char_debug(c) == seq!['\''],
        (c as int) < 0x20 && c != '\n' && c != '\r' && c != '\t' && c != '\0' ==> {
            let e = ascii_char_debug(c);
            &&& e.len() >= 5
            &&& e.subrange(0, 3) == seq!['\\', 'u', '{']
            &&& e.last() == '}'
        },
        ascii_char_debug(c) == seq![c] || (ascii_char_debug(c).len() >= 2 && ascii_char_debug(c)[0]
            == '\\'),
        ascii_char_debug(c) == seq![c] <==> (' ' <= c <= '~' && c != '"' && c != '\\'),
{
    let e = ascii_char_debug(c);
    if (c as int) < 0x20 && c != '\n' && c != '\r' && c != '\t' && c != '\0' {
        assert(e.subrange(0, 3) =~= seq!['\\', 'u', '{']);
    }
    if !(' ' <= c <= '~' && c != '"' && c != '\\') {
        assert(e.len() >= 2 && e[0] == '\\');
        assert(e.len() != seq![c].len());
    }
}

/// The texts of `items` one after the other, with `", "` between each two.
pub open spec fn comma_joined(items: Seq<Seq<char>>) -> Seq<char>
    decreases items.len(),
{
    if items.len() == 0 {
        Seq::empty()
    } else if items.len() == 1 {
        items[0]
    } else {
        comma_joined(items.drop_last()) + ", "@ + items.last()
    }
}

/// Joining one more item adds it after a separator, or alone if it is the first.
pub proof fn lemma_comma_joined_push(items: Seq<Seq<char>>, x: Seq<char>)
    ensures
        comma_joined(items.push(x)) == if items.len() == 0 {
            x
        } else {
            comma_joined(items) + ", "@ + x
        },
{
    assert(items.push(x).drop_last() =~= items);
    assert(items.push(x).last() == x);
}

} // verus!
