//! Bracketed byte lists such as `[1, 22, 255]`, the text form of a key file.
use vstd::prelude::*;

use crate::codec::CodecError;

verus! {

/// The character of a decimal digit.
pub open spec fn digit_char(d: int) -> char {
    if d == 0 {
        '0'
    } else if d == 1 {
        '1'
    } else if d == 2 {
        '2'
    } else if d == 3 {
        '3'
    } else if d == 4 {
        '4'
    } else if d == 5 {
        '5'
    } else if d == 6 {
        '6'
    } else if d == 7 {
        '7'
    } else if d == 8 {
        '8'
    } else {
        '9'
    }
}

/// `c` is a decimal digit.
pub open spec fn is_digit(c: char) -> bool {
    '0' <= c && c <= '9'
}

/// The value of a decimal digit character.
pub open spec fn digit_value(c: char) -> nat {
    ((c as u32) - ('0' as u32)) as nat
}

/// The decimal form of a byte, without leading zeros.
pub open spec fn decimal(x: u8) -> Seq<char> {
    if x < 10 {
        seq![digit_char(x as int)]
    } else if x < 100 {
        seq![digit_char(x as int / 10), digit_char(x as int % 10)]
    } else {
        seq![digit_char(x as int / 100), digit_char((x as int / 10) % 10), digit_char(x as int % 10)]
    }
}

/// The bytes in decimal, separated by a comma and a space.
pub open spec fn list_body(b: Seq<u8>) -> Seq<char>
    decreases b.len(),
{
    if b.len() == 0 {
        Seq::empty()
    } else if b.len() == 1 {
        decimal(b[0])
    } else {
        list_body(b.drop_last()) + seq![',', ' '] + decimal(b.last())
    }
}

/// The bracketed list that `bytes_to_array_literal` writes.
pub open spec fn array_literal(b: Seq<u8>) -> Seq<char> {
    seq!['['] + list_body(b) + seq![']']
}

/// What the reader holds between characters: the finished items, the value
/// of the item being read, and where it stands in that item (0: before its
/// digits, 1: in its digits, 2: after its digits).
pub type ReadState = (Seq<u8>, nat, nat);

/// One character of a list body. Spaces may surround an item; an item is one
/// or more digits with a value of at most 255; a comma ends an item.
pub open spec fn step(st: ReadState, c: char) -> Option<ReadState> {
    let (items, cur, phase) = st;
    if c == ' ' {
        Some((items, cur, if phase == 1 { 2 } else { phase }))
    } else if is_digit(c) {
        if phase == 2 {
            None
        } else {
            let v = (if phase == 0 { 0 } else { cur }) * 10 + digit_value(c);
            if v > 255 {
                None
            } else {
                Some((items, v, 1))
            }
        }
    } else if c == ',' {
        if phase == 0 {
            None
        } else {
            Some((items.push(cur as u8), 0, 0))
        }
    } else {
        None
    }
}

/// The reader's state after the characters `s`, starting from `st`.
pub open spec fn run_from(st: ReadState, s: Seq<char>) -> Option<ReadState>
    decreases s.len(),
{
    if s.len() == 0 {
        Some(st)
    } else {
        match run_from(st, s.drop_last()) {
            None => None,
            Some(x) => step(x, s.last()),
        }
    }
}

/// The bytes of a list body, once all of it has been read.
pub open spec fn finish(st: ReadState) -> Option<Seq<u8>> {
    if st.2 == 0 {
        if st.0.len() == 0 {
            Some(Seq::empty())
        } else {
            None
        }
    } else {
        Some(st.0.push(st.1 as u8))
    }
}

/// The bytes that a bracketed list stands for, if it is one.
pub open spec fn parse_array_literal(s: Seq<char>) -> Option<Seq<u8>> {
    if s.len() >= 2 && s[0] == '[' && s.last() == ']' {
        match run_from((Seq::empty(), 0, 0), s.subrange(1, s.len() - 1)) {
            None => None,
            Some(st) => finish(st),
        }
    } else {
        None
    }
}

/// Relies on String::push: appends one character.
#[verifier::external_body]
fn push_char(s: &mut String, c: char)
    ensures
        final(s)@ == old(s)@.push(c),
{
    s.push(c)
}

fn digit_to_char(d: u8) -> (c: char)
    requires
        d < 10,
    ensures
        c == digit_char(d as int),
{
    if d == 0 {
        '0'
    } else if d == 1 {
        '1'
    } else if d == 2 {
        '2'
    } else if d == 3 {
        '3'
    } else if d == 4 {
        '4'
    } else if d == 5 {
        '5'
    } else if d == 6 {
        '6'
    } else if d == 7 {
        '7'
    } else if d == 8 {
        '8'
    } else {
        '9'
    }
}

fn push_decimal(s: &mut String, x: u8)
    ensures
        final(s)@ == old(s)@ + decimal(x),
{
    if x < 10 {
        push_char(s, digit_to_char(x));
    } else if x < 100 {
        push_char(s, digit_to_char(x / 10));
        push_char(s, digit_to_char(x % 10));
    } else {
        push_char(s, digit_to_char(x / 100));
        push_char(s, digit_to_char((x / 10) % 10));
        push_char(s, digit_to_char(x % 10));
    }
    assert(final(s)@ =~= old(s)@ + decimal(x));
}

/// Writes `bytes` as a bracketed list, `[1, 22, 255]`.
pub fn bytes_to_array_literal(bytes: &Vec<u8>) -> (r: String)
    ensures
        r@ == array_literal(bytes@),
{
    let mut s = String::new();
    push_char(&mut s, '[');
    let mut i: usize = 0;
    while i < bytes.len()
        invariant
            0 <= i <= bytes@.len(),
            s@ == seq!['['] + list_body(bytes@.take(i as int)),
        decreases bytes@.len() - i,
    {
        let ghost before = s@;
        if i > 0 {
            push_char(&mut s, ',');
            push_char(&mut s, ' ');
        }
        push_decimal(&mut s, bytes[i]);
        proof {
            let t = bytes@.take(i + 1);
            assert(t.drop_last() =~= bytes@.take(i as int));
            if i == 0 {
                assert(list_body(bytes@.take(0)) =~= Seq::empty());
                assert(s@ =~= seq!['['] + list_body(t));
            } else {
                assert(s@ =~= seq!['['] + list_body(t));
            }
        }
        i = i + 1;
    }
    assert(bytes@.take(i as int) =~= bytes@);
    push_char(&mut s, ']');
    s
}

proof fn lemma_run_none_extends(st: ReadState, s: Seq<char>, k: int)
    requires
        0 <= k <= s.len(),
        run_from(st, s.take(k)) is None,
    ensures
        run_from(st, s) is None,
    decreases s.len() - k,
{
    if k < s.len() {
        assert(s.take(k + 1).drop_last() =~= s.take(k));
        lemma_run_none_extends(st, s, k + 1);
    } else {
        assert(s.take(k) =~= s);
    }
}

/// Reads a bracketed list of bytes: `[`, then items separated by commas, then
/// `]`. Spaces may surround each item; an item is one or more decimal digits
/// with a value of at most 255; `[]` is the empty list. Anything else is
/// `MalformedArrayLiteral`.
pub fn array_literal_to_bytes(text: &str) -> (r: Result<Vec<u8>, CodecError>)
    ensures
        match parse_array_literal(text@) {
            Some(b) => r is Ok && r->Ok_0@ == b,
            None => r == Err::<Vec<u8>, CodecError>(CodecError::MalformedArrayLiteral),
        },
{
    let n = text.unicode_len();
    if n < 2 {
        return Err(CodecError::MalformedArrayLiteral);
    }
    if text.get_char(0) != '[' || text.get_char(n - 1) != ']' {
        return Err(CodecError::MalformedArrayLiteral);
    }
    let ghost body = text@.subrange(1, n - 1);
    let ghost init: ReadState = (Seq::empty(), 0, 0);
    let mut items: Vec<u8> = Vec::new();
    let mut cur: u32 = 0;
    let mut phase: u8 = 0;
    let mut i: usize = 1;
    while i < n - 1
        invariant
            n == text@.len(),
            n >= 2,
            text@[0] == '[',
            text@[n - 1] == ']',
            1 <= i <= n - 1,
            body == text@.subrange(1, n - 1),
            init == (Seq::<u8>::empty(), 0nat, 0nat),
            cur <= 255,
            phase <= 2,
            run_from(init, body.take(i - 1)) == Some((items@, cur as nat, phase as nat)),
        decreases n - 1 - i,
    {
        let c = text.get_char(i);
        proof {
            assert(body.take(i as int).drop_last() =~= body.take(i - 1));
            assert(body.take(i as int).last() == c);
        }
        if c == ' ' {
            if phase == 1 {
                phase = 2;
            }
        } else if '0' <= c && c <= '9' {
            if phase == 2 {
                proof {
                    lemma_run_none_extends(init, body, i as int);
                }
                return Err(CodecError::MalformedArrayLiteral);
            }
            let base: u32 = if phase == 0 { 0 } else { cur };
            let v: u32 = base * 10 + ((c as u32) - ('0' as u32));
            if v > 255 {
                proof {
                    lemma_run_none_extends(init, body, i as int);
                }
                return Err(CodecError::MalformedArrayLiteral);
            }
            cur = v;
            phase = 1;
        } else if c == ',' {
            if phase == 0 {
                proof {
                    lemma_run_none_extends(init, body, i as int);
                }
                return Err(CodecError::MalformedArrayLiteral);
            }
            items.push(cur as u8);
            cur = 0;
            phase = 0;
        } else {
            proof {
                lemma_run_none_extends(init, body, i as int);
            }
            return Err(CodecError::MalformedArrayLiteral);
        }
        i = i + 1;
    }
    assert(body.take(i - 1) =~= body);
    if phase == 0 {
        if items.len() == 0 {
            Ok(items)
        } else {
            Err(CodecError::MalformedArrayLiteral)
        }
    } else {
        items.push(cur as u8);
        Ok(items)
    }
}
proof fn lemma_run_concat(st: ReadState, s: Seq<char>, t: Seq<char>)
    ensures
        run_from(st, s + t) == match run_from(st, s) {
            None => None,
            Some(x) => run_from(x, t),
        },
    decreases t.len(),
{
    if t.len() == 0 {
        assert(s + t =~= s);
    } else {
        assert((s + t).drop_last() =~= s + t.drop_last());
        lemma_run_concat(st, s, t.drop_last());
    }
}

proof fn lemma_digit(d: int)
    requires
        0 <= d < 10,
    ensures
        is_digit(digit_char(d)),
        digit_value(digit_char(d)) == d,
        digit_char(d) != ' ',
        digit_char(d) != ',',
{
}

proof fn lemma_run_decimal(items: Seq<u8>, cur: nat, x: u8)
    ensures
        run_from((items, cur, 0), decimal(x)) == Some((items, x as nat, 1nat)),
{
    let st: ReadState = (items, cur, 0);
    let d = decimal(x);
    if x < 10 {
        lemma_digit(x as int);
        assert(d.drop_last() =~= Seq::<char>::empty());
    } else if x < 100 {
        lemma_digit(x as int / 10);
        lemma_digit(x as int % 10);
        assert(d.drop_last() =~= seq![digit_char(x as int / 10)]);
        assert(d.drop_last().drop_last() =~= Seq::<char>::empty());
        assert(run_from(st, d.drop_last().drop_last()) == Some(st));
        assert(run_from(st, d.drop_last()) == Some((items, (x as int / 10) as nat, 1nat)));
        assert((x as int / 10) * 10 + x as int % 10 == x);
    } else {
        let a = x as int / 100;
        let b = (x as int / 10) % 10;
        let c = x as int % 10;
        lemma_digit(a);
        lemma_digit(b);
        lemma_digit(c);
        let d1 = d.drop_last().drop_last();
        assert(d1 =~= seq![digit_char(a)]);
        assert(d1.drop_last() =~= Seq::<char>::empty());
        assert(run_from(st, d1.drop_last()) == Some(st));
        assert(run_from(st, d1) == Some((items, a as nat, 1nat)));
        assert(a * 10 + b == x as int / 10);
        assert(run_from(st, d.drop_last()) == Some((items, (x as int / 10) as nat, 1nat)));
        assert((x as int / 10) * 10 + c == x);
    }
}

proof fn lemma_run_list_body(b: Seq<u8>)
    requires
        b.len() > 0,
    ensures
        run_from((Seq::empty(), 0, 0), list_body(b)) == Some((b.drop_last(), b.last() as nat, 1nat)),
    decreases b.len(),
{
    let init: ReadState = (Seq::empty(), 0, 0);
    if b.len() == 1 {
        lemma_run_decimal(Seq::empty(), 0, b[0]);
        assert(b.drop_last() =~= Seq::<u8>::empty());
    } else {
        let p = b.drop_last();
        lemma_run_list_body(p);
        let sep = seq![',', ' '];
        lemma_run_concat(init, list_body(p), sep);
        assert(sep.drop_last() =~= seq![',']);
        assert(seq![','].drop_last() =~= Seq::<char>::empty());
        assert(p.drop_last().push(p.last()) =~= p);
        let x: ReadState = (p.drop_last(), p.last() as nat, 1nat);
        assert(run_from(x, Seq::<char>::empty()) == Some(x));
        assert(run_from(x, seq![',']) == Some((p, 0nat, 0nat)));
        assert(run_from(x, sep) == Some((p, 0nat, 0nat)));
        lemma_run_concat(init, list_body(p) + sep, decimal(b.last()));
        lemma_run_decimal(p, 0, b.last());
    }
}

/// Reading back what `bytes_to_array_literal` writes gives the same bytes.
pub proof fn lemma_array_literal_round_trip(b: Seq<u8>)
    ensures
        parse_array_literal(array_literal(b)) == Some(b),
{
    let s = array_literal(b);
    assert(s.subrange(1, s.len() - 1) =~= list_body(b));
    if b.len() == 0 {
        assert(list_body(b) =~= Seq::<char>::empty());
    } else {
        lemma_run_list_body(b);
        assert(b.drop_last().push(b.last()) =~= b);
    }
}

} // verus!
