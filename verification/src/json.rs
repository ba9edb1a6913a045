//! JSON encoding of reply values.
//!
//! Successful read commands answer with their value JSON-encoded: a quoted
//! string with the two metacharacters and the control characters escaped,
//! an array of strings, or `null` for an absent key. The spec functions
//! fix the encoding character by character; the executable encoders are
//! proved to produce exactly it.

use vstd::prelude::*;

verus! {

/// The hexadecimal digit character for `d` in `0 ..= 15`.
pub open spec fn hex_char(d: int) -> char {
    if d == 0 {
        '0'
    } else if d == 1 {
        '1'
    } else if d == 2 {
        '2'
    } else if d == 3 {
        '3'
    } else if d == 4 {
        '4'
    } else if d == 5 {
        '5'
    } else if d == 6 {
        '6'
    } else if d == 7 {
        '7'
    } else if d == 8 {
        '8'
    } else if d == 9 {
        '9'
    } else if d == 10 {
        'a'
    } else if d == 11 {
        'b'
    } else if d == 12 {
        'c'
    } else if d == 13 {
        'd'
    } else if d == 14 {
        'e'
    } else {
        'f'
    }
}

/// JSON escape of one character: quote and backslash get a backslash,
/// control characters become a four-digit escape, all else stands as is.
pub open spec fn esc(c: char) -> Seq<char> {
    if c == '"' {
        seq!['\\', '"']
    } else if c == '\\' {
        seq!['\\', '\\']
    } else if (c as u32) < 32 {
        seq!['\\', 'u', '0', '0', hex_char(c as u32 as int / 16), hex_char(c as u32 as int % 16)]
    } else {
        seq![c]
    }
}

/// JSON escape of a whole string's characters.
pub open spec fn esc_all(s: Seq<char>) -> Seq<char>
    decreases s.len(),
{
    if s.len() == 0 {
        Seq::empty()
    } else {
        esc_all(s.drop_last()) + esc(s.last())
    }
}

/// A JSON string: quoted, escaped.
pub open spec fn json_str(s: Seq<char>) -> Seq<char> {
    seq!['"'] + esc_all(s) + seq!['"']
}

/// The JSON null literal.
pub open spec fn json_null() -> Seq<char> {
    seq!['n', 'u', 'l', 'l']
}

/// Comma-joined items of a JSON array.
pub open spec fn joined(items: Seq<Seq<char>>) -> Seq<char>
    decreases items.len(),
{
    if items.len() == 0 {
        Seq::empty()
    } else if items.len() == 1 {
        items[0]
    } else {
        joined(items.drop_last()) + seq![','] + items.last()
    }
}

/// A JSON array of already-encoded items.
pub open spec fn json_arr(items: Seq<Seq<char>>) -> Seq<char> {
    seq!['['] + joined(items) + seq![']']
}

/// A JSON array of strings.
pub open spec fn json_str_arr(strs: Seq<Seq<char>>) -> Seq<char> {
    json_arr(strs.map_values(|s: Seq<char>| json_str(s)))
}

/// A JSON array of strings and nulls.
pub open spec fn json_opt_arr(os: Seq<Option<Seq<char>>>) -> Seq<char> {
    json_arr(
        os.map_values(
            |o: Option<Seq<char>>|
                match o {
                    Some(s) => json_str(s),
                    None => json_null(),
                },
        ),
    )
}

/// The hexadecimal digit for a small number, as a one-character string.
fn hex_str(d: u32) -> (r: &'static str)
    requires
        d < 16,
    ensures
        r@ =~= seq![hex_char(d as int)],
{
    proof {
        reveal_strlit("0");
        reveal_strlit("1");
        reveal_strlit("2");
        reveal_strlit("3");
        reveal_strlit("4");
        reveal_strlit("5");
        reveal_strlit("6");
        reveal_strlit("7");
        reveal_strlit("8");
        reveal_strlit("9");
        reveal_strlit("a");
        reveal_strlit("b");
        reveal_strlit("c");
        reveal_strlit("d");
        reveal_strlit("e");
        reveal_strlit("f");
    }
    if d == 0 {
        "0"
    } else if d == 1 {
        "1"
    } else if d == 2 {
        "2"
    } else if d == 3 {
        "3"
    } else if d == 4 {
        "4"
    } else if d == 5 {
        "5"
    } else if d == 6 {
        "6"
    } else if d == 7 {
        "7"
    } else if d == 8 {
        "8"
    } else if d == 9 {
        "9"
    } else if d == 10 {
        "a"
    } else if d == 11 {
        "b"
    } else if d == 12 {
        "c"
    } else if d == 13 {
        "d"
    } else if d == 14 {
        "e"
    } else {
        "f"
    }
}

/// Encode one string as a JSON string.
pub fn json_string(s: &str) -> (r: String)
    ensures
        r@ == json_str(s@),
{
    let n = s.unicode_len();
    let mut r = String::from_str("\"");
    proof {
        reveal_strlit("\"");
        assert(r@ =~= seq!['"'] + esc_all(s@.subrange(0, 0)));
    }
    let mut i: usize = 0;
    while i < n
        invariant
            0 <= i <= n,
            n == s@.len(),
            r@ == seq!['"'] + esc_all(s@.subrange(0, i as int)),
        decreases n - i,
    {
        let c = s.get_char(i);
        proof {
            assert(s@.subrange(0, i + 1 as int).drop_last() =~= s@.subrange(0, i as int));
            assert(s@.subrange(0, i + 1 as int).last() == s@[i as int]);
        }
        if c == '"' {
            r.append("\\\"");
            proof {
                reveal_strlit("\\\"");
                assert(r@ =~= seq!['"'] + esc_all(s@.subrange(0, i + 1 as int)));
            }
        } else if c == '\\' {
            r.append("\\\\");
            proof {
                reveal_strlit("\\\\");
                assert(r@ =~= seq!['"'] + esc_all(s@.subrange(0, i + 1 as int)));
            }
        } else if (c as u32) < 32 {
            r.append("\\u00");
            r.append(hex_str(c as u32 / 16));
            r.append(hex_str(c as u32 % 16));
            proof {
                reveal_strlit("\\u00");
                assert(r@ =~= seq!['"'] + esc_all(s@.subrange(0, i + 1 as int)));
            }
        } else {
            let piece = s.substring_char(i, i + 1);
            r.append(piece);
            proof {
                assert(piece@ =~= seq![s@[i as int]]);
                assert(r@ =~= seq!['"'] + esc_all(s@.subrange(0, i + 1 as int)));
            }
        }
        i = i + 1;
    }
    r.append("\"");
    proof {
        reveal_strlit("\"");
        assert(s@.subrange(0, n as int) =~= s@);
        assert(r@ =~= json_str(s@));
    }
    r
}

/// Encode a vector of strings as a JSON array.
pub fn json_string_vec(v: &Vec<String>) -> (r: String)
    ensures
        r@ == json_str_arr(v@.map_values(|s: String| s@)),
{
    let ghost items = v@.map_values(|s: String| s@).map_values(|s: Seq<char>| json_str(s));
    let mut r = String::from_str("[");
    proof {
        reveal_strlit("[");
        assert(r@ =~= seq!['['] + joined(items.subrange(0, 0)));
    }
    let mut i: usize = 0;
    while i < v.len()
        invariant
            0 <= i <= v@.len(),
            items == v@.map_values(|s: String| s@).map_values(|s: Seq<char>| json_str(s)),
            items.len() == v@.len(),
            forall|j: int| 0 <= j < v@.len() ==> items[j] == json_str(v@[j]@),
            r@ == seq!['['] + joined(items.subrange(0, i as int)),
        decreases v@.len() - i,
    {
        if i > 0 {
            r.append(",");
            proof {
                reveal_strlit(",");
            }
        }
        let piece = json_string(v[i].as_str());
        r.append(piece.as_str());
        proof {
            assert(items.subrange(0, i + 1 as int).drop_last() =~= items.subrange(0, i as int));
            assert(items.subrange(0, i + 1 as int).last() == items[i as int]);
            assert(r@ =~= seq!['['] + joined(items.subrange(0, i + 1 as int)));
        }
        i = i + 1;
    }
    r.append("]");
    proof {
        reveal_strlit("]");
        assert(items.subrange(0, v@.len() as int) =~= items);
        assert(r@ =~= json_str_arr(v@.map_values(|s: String| s@)));
    }
    r
}

/// Encode a vector of optional strings as a JSON array with nulls.
pub fn json_opt_vec(v: &Vec<Option<String>>) -> (r: String)
    ensures
        r@ == json_opt_arr(
            v@.map_values(
                |o: Option<String>|
                    match o {
                        Some(s) => Some(s@),
                        None => None,
                    },
            ),
        ),
{
    let ghost os = v@.map_values(
        |o: Option<String>|
            match o {
                Some(s) => Some(s@),
                None => None,
            },
    );
    let ghost items = os.map_values(
        |o: Option<Seq<char>>|
            match o {
                Some(s) => json_str(s),
                None => json_null(),
            },
    );
    let mut r = String::from_str("[");
    proof {
        reveal_strlit("[");
        assert(r@ =~= seq!['['] + joined(items.subrange(0, 0)));
    }
    let mut i: usize = 0;
    while i < v.len()
        invariant
            0 <= i <= v@.len(),
            os == v@.map_values(
                |o: Option<String>|
                    match o {
                        Some(s) => Some(s@),
                        None => None,
                    },
            ),
            items == os.map_values(
                |o: Option<Seq<char>>|
                    match o {
                        Some(s) => json_str(s),
                        None => json_null(),
                    },
            ),
            items.len() == v@.len(),
            r@ == seq!['['] + joined(items.subrange(0, i as int)),
        decreases v@.len() - i,
    {
        if i > 0 {
            r.append(",");
            proof {
                reveal_strlit(",");
            }
        }
        match &v[i] {
            Some(s) => {
                let piece = json_string(s.as_str());
                r.append(piece.as_str());
            },
            None => {
                r.append("null");
                proof {
                    reveal_strlit("null");
                }
            },
        }
        proof {
            assert(items.subrange(0, i + 1 as int).drop_last() =~= items.subrange(0, i as int));
            assert(items.subrange(0, i + 1 as int).last() == items[i as int]);
            assert(r@ =~= seq!['['] + joined(items.subrange(0, i + 1 as int)));
        }
        i = i + 1;
    }
    r.append("]");
    proof {
        reveal_strlit("]");
        assert(items.subrange(0, v@.len() as int) =~= items);
        assert(r@ =~= json_opt_arr(os));
    }
    r
}

} // verus!
