//! Hex text for binary fields: `0x` followed by two lower-case digits per
//! byte, most significant digit first.
use vstd::prelude::*;
use vstd::string::StringExecFns;
use vstd::string::StrSliceExecFns;

verus! {

broadcast use vstd::string::is_ascii_spec_bytes;

pub open spec fn hex_digits() -> Seq<char> {
    seq!['0', '1', '2', '3', '4', '5', '6', '7', '8', '9', 'a', 'b', 'c', 'd', 'e', 'f']
}

/// The digits of `b`, two per byte.
pub open spec fn hex_body(b: Seq<u8>) -> Seq<char> {
    Seq::new(
        2 * b.len(),
        |i: int|
            if i % 2 == 0 {
                hex_digits()[(b[i / 2] / 16) as int]
            } else {
                hex_digits()[(b[i / 2] % 16) as int]
            },
    )
}

/// The hex text of `b`.
pub open spec fn hex_text(b: Seq<u8>) -> Seq<char> {
    seq!['0', 'x'] + hex_body(b)
}

/// Text that is the hex text of some bytes.
pub open spec fn is_hex_text(s: Seq<char>) -> bool {
    exists|b: Seq<u8>| hex_text(b) == s
}

proof fn lemma_digit_code(d: int)
    requires
        0 <= d < 16,
    ensures
        hex_digits()[d] as u32 == if d < 10 {
            48 + d
        } else {
            87 + d
        },
{
    if d == 0 {
    } else if d == 1 {
    } else if d == 2 {
    } else if d == 3 {
    } else if d == 4 {
    } else if d == 5 {
    } else if d == 6 {
    } else if d == 7 {
    } else if d == 8 {
    } else if d == 9 {
    } else if d == 10 {
    } else if d == 11 {
    } else if d == 12 {
    } else if d == 13 {
    } else if d == 14 {
    } else if d == 15 {
    }
}

proof fn lemma_same_code(c: char, d: char)
    requires
        c as u32 == d as u32,
    ensures
        c == d,
{
}

/// Distinct bytes have distinct hex text.
pub proof fn lemma_hex_text_injective(a: Seq<u8>, b: Seq<u8>)
    requires
        hex_text(a) == hex_text(b),
    ensures
        a == b,
{
    assert(hex_text(a).len() == 2 + 2 * a.len());
    assert(hex_text(b).len() == 2 + 2 * b.len());
    assert(a.len() == b.len());
    assert forall|i: int| 0 <= i < a.len() implies a[i] == b[i] by {
        assert(hex_text(a)[2 + 2 * i] == hex_body(a)[2 * i]);
        assert(hex_text(b)[2 + 2 * i] == hex_body(b)[2 * i]);
        assert(hex_text(a)[3 + 2 * i] == hex_body(a)[2 * i + 1]);
        assert(hex_text(b)[3 + 2 * i] == hex_body(b)[2 * i + 1]);
        lemma_digit_code((a[i] / 16) as int);
        lemma_digit_code((b[i] / 16) as int);
        lemma_digit_code((a[i] % 16) as int);
        lemma_digit_code((b[i] % 16) as int);
    }
    assert(a =~= b);
}

fn digit_str(n: u8) -> (r: &'static str)
    requires
        n < 16,
    ensures
        r@ == seq![hex_digits()[n as int]],
{
    if n == 0 {
        proof {
            reveal_strlit("0");
        }
        "0"
    } else if n == 1 {
        proof {
            reveal_strlit("1");
        }
        "1"
    } else if n == 2 {
        proof {
            reveal_strlit("2");
        }
        "2"
    } else if n == 3 {
        proof {
            reveal_strlit("3");
        }
        "3"
    } else if n == 4 {
        proof {
            reveal_strlit("4");
        }
        "4"
    } else if n == 5 {
        proof {
            reveal_strlit("5");
        }
        "5"
    } else if n == 6 {
        proof {
            reveal_strlit("6");
        }
        "6"
    } else if n == 7 {
        proof {
            reveal_strlit("7");
        }
        "7"
    } else if n == 8 {
        proof {
            reveal_strlit("8");
        }
        "8"
    } else if n == 9 {
        proof {
            reveal_strlit("9");
        }
        "9"
    } else if n == 10 {
        proof {
            reveal_strlit("a");
        }
        "a"
    } else if n == 11 {
        proof {
            reveal_strlit("b");
        }
        "b"
    } else if n == 12 {
        proof {
            reveal_strlit("c");
        }
        "c"
    } else if n == 13 {
        proof {
            reveal_strlit("d");
        }
        "d"
    } else if n == 14 {
        proof {
            reveal_strlit("e");
        }
        "e"
    } else {
        proof {
            reveal_strlit("f");
        }
        "f"
    }
}

/// The value of an ASCII hex digit (lower case), if `c` is one.
fn digit_value(c: u8) -> (r: Option<u8>)
    ensures
        r matches Some(d) ==> d < 16 && hex_digits()[d as int] as u32 == c as u32,
        r is None ==> forall|d: int| 0 <= d < 16 ==> hex_digits()[d] as u32 != c as u32,
{
    proof {
        assert forall|d: int| 0 <= d < 16 implies hex_digits()[d] as u32 == if d < 10 {
            48 + d
        } else {
            87 + d
        } by {
            lemma_digit_code(d);
        }
    }
    if 48 <= c && c <= 57 {
        Some(c - 48)
    } else if 97 <= c && c <= 102 {
        Some(c - 87)
    } else {
        None
    }
}

/// Writes `b` as hex text.
pub fn encode_hex(b: &Vec<u8>) -> (r: String)
    ensures
        r@ == hex_text(b@),
{
    let mut s = String::new();
    s.append("0x");
    proof {
        reveal_strlit("0x");
        assert(s@ =~= hex_text(b@.take(0)));
    }
    let mut i: usize = 0;
    while i < b.len()
        invariant
            i <= b@.len(),
            s@ == hex_text(b@.take(i as int)),
        decreases b@.len() - i,
    {
        let byte = b[i];
        s.append(digit_str(byte / 16));
        s.append(digit_str(byte % 16));
        proof {
            assert(hex_text(b@.take(i + 1)) =~= hex_text(b@.take(i as int)) + seq![
                hex_digits()[(byte / 16) as int],
                hex_digits()[(byte % 16) as int],
            ]);
        }
        i = i + 1;
    }
    assert(b@.take(b@.len() as int) =~= b@);
    s
}

proof fn lemma_hex_text_ascii(b: Seq<u8>)
    ensures
        forall|i: int| 0 <= i < hex_text(b).len() ==> (#[trigger] hex_text(b)[i]) as u32 <= 127,
{
    assert forall|i: int| 0 <= i < hex_text(b).len() implies (#[trigger] hex_text(b)[i]) as u32
        <= 127 by {
        if i >= 2 {
            let j = i - 2;
            if j % 2 == 0 {
                lemma_digit_code((b[j / 2] / 16) as int);
            } else {
                lemma_digit_code((b[j / 2] % 16) as int);
            }
            assert(hex_text(b)[i] == hex_body(b)[j]);
        }
    }
}

/// Reads hex text back into bytes: `None` unless `s` is the hex text of some
/// bytes, which are then returned.
pub fn decode_hex(s: &String) -> (r: Option<Vec<u8>>)
    ensures
        r is Some <==> is_hex_text(s@),
        r matches Some(v) ==> hex_text(v@) == s@,
{
    let st = s.as_str();
    if !st.is_ascii() {
        proof {
            if is_hex_text(s@) {
                let b = choose|b: Seq<u8>| hex_text(b) == s@;
                lemma_hex_text_ascii(b);
            }
        }
        return None;
    }
    let bytes = st.as_bytes_vec();
    assert(bytes@.len() == s@.len());
    assert(forall|i: int| 0 <= i < bytes@.len() ==> bytes@[i] as u32 == s@[i] as u32);
    let n = bytes.len();
    if n < 2 || n % 2 != 0 || bytes[0] != 48 || bytes[1] != 120 {
        proof {
            if is_hex_text(s@) {
                let b = choose|b: Seq<u8>| hex_text(b) == s@;
                assert(s@[0] == '0');
                assert(s@[1] == 'x');
            }
        }
        return None;
    }
    let count = (n - 2) / 2;
    let mut out: Vec<u8> = Vec::with_capacity(count);
    let mut k: usize = 0;
    while k < count
        invariant
            n == bytes@.len(),
            n == s@.len(),
            n >= 2,
            n % 2 == 0,
            count == (n - 2) / 2,
            forall|i: int| 0 <= i < n ==> bytes@[i] as u32 == s@[i] as u32,
            forall|i: int| 0 <= i < n ==> (#[trigger] s@[i]) as u32 <= 127,
            k <= count,
            out@.len() == k,
            forall|j: int|
                0 <= j < k ==> s@[2 + 2 * j] == hex_digits()[((#[trigger] out@[j]) / 16) as int] && s@[3 + 2
                    * j] == hex_digits()[(out@[j] % 16) as int],
        decreases count - k,
    {
        let hi = digit_value(bytes[2 + 2 * k]);
        let lo = digit_value(bytes[3 + 2 * k]);
        match (hi, lo) {
            (Some(h), Some(l)) => {
                let v: u8 = h * 16 + l;
                proof {
                    lemma_digit_code(h as int);
                    lemma_digit_code(l as int);
                    assert(v / 16 == h && v % 16 == l);
                    let c0 = s@[2 + 2 * k];
                    let c1 = s@[3 + 2 * k];
                    assert(c0 as u32 == hex_digits()[h as int] as u32);
                    assert(c1 as u32 == hex_digits()[l as int] as u32);
                    lemma_same_code(c0, hex_digits()[h as int]);
                    lemma_same_code(c1, hex_digits()[l as int]);
                }
                let ghost before = out@;
                out.push(v);
                assert(forall|j: int| 0 <= j < k ==> out@[j] == before[j]);
            },
            _ => {
                proof {
                    if is_hex_text(s@) {
                        let b = choose|b: Seq<u8>| hex_text(b) == s@;
                        assert(s@[2 + 2 * k] == hex_body(b)[2 * k]);
                        assert(s@[3 + 2 * k] == hex_body(b)[2 * k + 1]);
                    }
                }
                return None;
            },
        }
        k = k + 1;
    }
    proof {
        assert forall|i: int| 0 <= i < s@.len() implies hex_text(out@)[i] == s@[i] by {
            if i >= 2 {
                let j = (i - 2) / 2;
                if (i - 2) % 2 == 0 {
                    assert(i == 2 + 2 * j);
                } else {
                    assert(i == 3 + 2 * j);
                }
            } else if i == 0 {
                assert(s@[0] as u32 == 48);
            } else {
                assert(s@[1] as u32 == 120);
            }
        }
        assert(hex_text(out@) =~= s@);
    }
    Some(out)
}

} // verus!
