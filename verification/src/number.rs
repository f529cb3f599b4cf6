//! Wire text for the numeric payload of an outbound measurement: a string
//! that satisfies the JSON number grammar (`-?(0|[1-9][0-9]*)(.[0-9]+)?([eE][+-]?[0-9]+)?`),
//! validated once at construction and spliced verbatim into the encoded event.

use vstd::prelude::*;
use crate::chars::str_to_char_vec;

verus! {

/// A decimal digit.
pub open spec fn is_digit(c: char) -> bool {
    48 <= c as u32 && c as u32 <= 57
}

/// What remains of `s` after its longest prefix of digits.
pub open spec fn skip_digits(s: Seq<char>) -> Seq<char>
    decreases s.len(),
{
    if s.len() > 0 && is_digit(s[0]) {
        skip_digits(s.drop_first())
    } else {
        s
    }
}

/// What remains after the sign and integer part, or `None` when `s` has no
/// well-formed integer part.  A leading zero stands alone.
pub open spec fn after_int_part(s: Seq<char>) -> Option<Seq<char>> {
    let t = if s.len() > 0 && s[0] == '-' {
        s.drop_first()
    } else {
        s
    };
    if t.len() > 0 && is_digit(t[0]) {
        if t[0] == '0' {
            Some(t.drop_first())
        } else {
            Some(skip_digits(t))
        }
    } else {
        None
    }
}

/// What remains after an optional fraction part (`.` followed by digits).
pub open spec fn after_frac_part(s: Seq<char>) -> Seq<char> {
    if s.len() >= 2 && s[0] == '.' && is_digit(s[1]) {
        skip_digits(s.skip(1))
    } else {
        s
    }
}

/// What remains after an optional exponent part (`e`/`E`, optional sign, digits).
pub open spec fn after_exp_part(s: Seq<char>) -> Seq<char> {
    if s.len() >= 2 && (s[0] == 'e' || s[0] == 'E') {
        if is_digit(s[1]) {
            skip_digits(s.skip(1))
        } else if (s[1] == '+' || s[1] == '-') && s.len() >= 3 && is_digit(s[2]) {
            skip_digits(s.skip(2))
        } else {
            s
        }
    } else {
        s
    }
}

/// The JSON number grammar: sign and integer part, then an optional fraction,
/// then an optional exponent, consuming the whole text.
pub open spec fn is_json_number(s: Seq<char>) -> bool {
    match after_int_part(s) {
        Some(t) => after_exp_part(after_frac_part(t)).len() == 0,
        None => false,
    }
}

/// The index just past the digits that start at `i`.
fn skip_digits_idx(v: &Vec<char>, i: usize) -> (j: usize)
    requires
        i <= v.len(),
    ensures
        i <= j <= v.len(),
        skip_digits(v@.skip(i as int)) == v@.skip(j as int),
{
    let mut j: usize = i;
    while j < v.len() && 48 <= (v[j] as u32) && (v[j] as u32) <= 57
        invariant
            i <= j <= v.len(),
            skip_digits(v@.skip(i as int)) == skip_digits(v@.skip(j as int)),
        decreases v.len() - j,
    {
        proof {
            assert(v@.skip(j as int)[0] == v@[j as int]);
            assert(v@.skip(j as int).drop_first() =~= v@.skip(j as int + 1));
        }
        j = j + 1;
    }
    proof {
        if j < v.len() {
            assert(v@.skip(j as int)[0] == v@[j as int]);
            assert(!is_digit(v@.skip(j as int)[0]));
        }
        assert(skip_digits(v@.skip(j as int)) == v@.skip(j as int));
    }
    j
}

/// Decides `is_json_number` for the characters of `v`.
pub fn check_json_number(v: &Vec<char>) -> (r: bool)
    ensures
        r == is_json_number(v@),
{
    let ghost s = v@;
    let mut i: usize = 0;
    if v.len() > 0 && v[0] == '-' {
        i = 1;
    }
    proof {
        if i == 1 {
            assert(s.drop_first() =~= s.skip(1));
        } else {
            assert(s.skip(0) =~= s);
        }
    }
    // integer part
    if !(i < v.len() && 48 <= (v[i] as u32) && (v[i] as u32) <= 57) {
        proof {
            if i < s.len() {
                assert(s.skip(i as int)[0] == s[i as int]);
            }
            assert(after_int_part(s) is None);
        }
        return false;
    }
    proof {
        assert(s.skip(i as int)[0] == s[i as int]);
    }
    let after_int: usize = if v[i] == '0' {
        proof {
            assert(s.skip(i as int).drop_first() =~= s.skip(i as int + 1));
        }
        i + 1
    } else {
        skip_digits_idx(v, i)
    };
    proof {
        assert(after_int_part(s) == Some(s.skip(after_int as int)));
    }
    let mut j: usize = after_int;
    // fraction part
    if j < v.len() && v[j] == '.' && j + 1 < v.len() && 48 <= (v[j + 1] as u32) && (v[j + 1] as u32) <= 57 {
        proof {
            let u = s.skip(j as int);
            assert(u[0] == s[j as int]);
            assert(u[1] == s[j as int + 1]);
            assert(u.skip(1) =~= s.skip(j as int + 1));
        }
        j = skip_digits_idx(v, j + 1);
        proof {
            assert(after_frac_part(s.skip(after_int as int)) == s.skip(j as int));
        }
    } else {
        proof {
            let u = s.skip(after_int as int);
            if u.len() >= 2 {
                assert(u[0] == s[after_int as int]);
                assert(u[1] == s[after_int as int + 1]);
            }
            assert(after_frac_part(u) == u);
        }
    }
    let ghost frac_end = j as int;
    assert(after_frac_part(s.skip(after_int as int)) == s.skip(frac_end));
    // exponent part
    if j < v.len() && (v[j] == 'e' || v[j] == 'E') && j + 1 < v.len() {
        proof {
            let w = s.skip(j as int);
            assert(w[0] == s[j as int]);
            assert(w[1] == s[j as int + 1]);
        }
        if 48 <= (v[j + 1] as u32) && (v[j + 1] as u32) <= 57 {
            proof {
                assert(s.skip(j as int).skip(1) =~= s.skip(j as int + 1));
            }
            j = skip_digits_idx(v, j + 1);
            proof {
                assert(after_exp_part(s.skip(frac_end)) == s.skip(j as int));
            }
        } else if (v[j + 1] == '+' || v[j + 1] == '-') && j + 2 < v.len() && 48 <= (v[j + 2] as u32)
            && (v[j + 2] as u32) <= 57 {
            proof {
                let w = s.skip(j as int);
                assert(w[2] == s[j as int + 2]);
                assert(w.skip(2) =~= s.skip(j as int + 2));
            }
            j = skip_digits_idx(v, j + 2);
            proof {
                assert(after_exp_part(s.skip(frac_end)) == s.skip(j as int));
            }
        } else {
            proof {
                let w = s.skip(j as int);
                if w.len() >= 3 {
                    assert(w[2] == s[j as int + 2]);
                }
                assert(after_exp_part(w) == w);
            }
        }
    } else {
        proof {
            let w = s.skip(frac_end);
            if w.len() >= 2 {
                assert(w[0] == s[frac_end]);
                assert(w[1] == s[frac_end + 1]);
            }
            assert(after_exp_part(w) == w);
        }
    }
    assert(after_exp_part(s.skip(frac_end)) == s.skip(j as int));
    j == v.len()
}

/// Wire text of a numeric payload: a string in the JSON number grammar.
pub struct JsonNumber {
    text: String,
}

impl JsonNumber {
    /// Every value of this type carries a well-formed JSON number.
    #[verifier::type_invariant]
    pub closed spec fn wf(self) -> bool {
        is_json_number(self.text@)
    }

    /// Validates `text` against the JSON number grammar; on success the
    /// returned value carries exactly that text.
    pub fn new(text: String) -> (r: Option<JsonNumber>)
        ensures
            match r {
                Some(n) => is_json_number(text@) && n@ == text@,
                None => !is_json_number(text@),
            },
    {
        let v = str_to_char_vec(text.as_str());
        if check_json_number(&v) {
            Some(JsonNumber { text })
        } else {
            None
        }
    }

    /// The number's wire text.
    pub fn as_text(&self) -> (r: &str)
        ensures
            r@ == self@,
    {
        self.text.as_str()
    }
}

impl View for JsonNumber {
    type V = Seq<char>;

    closed spec fn view(&self) -> Seq<char> {
        self.text@
    }
}

} // verus!
