//! HL7 escape sequences.
//!
//! Inside a component value the escape character opens a sequence
//! closed by the next escape character. The recognized codes stand
//! for the delimiters themselves — `F` the field, `S` the component,
//! `T` the subcomponent, `R` the repetition, `E` the escape — and
//! `.br` for a segment break, rendered as a newline. An unrecognized
//! sequence, or an unterminated one, is kept verbatim. Decoding is
//! applied on demand when a value is read, never at parse time.

use vstd::prelude::*;
use vstd::string::*;

use crate::model::{Component, Delimiters, DelimitersView};
use crate::text::{char_to_string, first_index, lemma_first_index, lemma_first_index_at};

verus! {

/// The value with its escape sequences decoded.
pub open spec fn spec_decode_escapes(s: Seq<char>, d: DelimitersView) -> Seq<char>
    decreases s.len(),
    via spec_decode_escapes_dec
{
    if s.len() == 0 {
        Seq::empty()
    } else if s[0] == d.escape {
        match first_index(s.skip(1), d.escape) {
            None => s,
            Some(j) => {
                let code = s.subrange(1, 1 + j);
                let rest = spec_decode_escapes(s.skip(j + 2), d);
                if code == seq!['F'] {
                    seq![d.field] + rest
                } else if code == seq!['S'] {
                    seq![d.component] + rest
                } else if code == seq!['T'] {
                    seq![d.subcomponent] + rest
                } else if code == seq!['R'] {
                    seq![d.repetition] + rest
                } else if code == seq!['E'] {
                    seq![d.escape] + rest
                } else if code == seq!['.', 'b', 'r'] {
                    seq!['\n'] + rest
                } else {
                    s.subrange(0, j + 2) + rest
                }
            },
        }
    } else {
        seq![s[0]] + spec_decode_escapes(s.drop_first(), d)
    }
}

#[via_fn]
proof fn spec_decode_escapes_dec(s: Seq<char>, d: DelimitersView) {
    if s.len() > 0 && s[0] == d.escape {
        lemma_first_index(s.skip(1), d.escape);
    }
}

/// The first occurrence of `d` at or after `from`, if any.
fn find_char_from(s: &str, from: usize, d: char) -> (r: Option<usize>)
    requires
        from as nat <= s@.len(),
    ensures
        match r {
            Some(k) => from <= k && (k as nat) < s@.len() && first_index(s@.skip(from as int), d)
                == Some(k - from as int),
            None => first_index(s@.skip(from as int), d) is None,
        },
{
    let n = s.unicode_len();
    let mut k: usize = from;
    while k < n
        invariant
            from <= k <= n,
            n as nat == s@.len(),
            forall|j: int| from <= j < k ==> s@[j] != d,
        decreases n - k,
    {
        if s.get_char(k) == d {
            proof {
                let t = s@.skip(from as int);
                assert forall|j: int| 0 <= j < k - from implies t[j] != d by {
                    assert(t[j] == s@[from + j]);
                }
                assert(t[k - from as int] == s@[k as int]);
                lemma_first_index_at(t, d, k - from as int);
            }
            return Some(k);
        }
        k = k + 1;
    }
    proof {
        let t = s@.skip(from as int);
        lemma_first_index(t, d);
        match first_index(t, d) {
            Some(j) => {
                assert(t[j] == s@[from + j]);
            },
            None => {},
        }
    }
    None
}

/// Decodes the escape sequences of a value, as `spec_decode_escapes`
/// describes.
pub fn decode_escapes(s: &str, delimiters: &Delimiters) -> (r: String)
    ensures
        r@ == spec_decode_escapes(s@, delimiters@),
{
    let n = s.unicode_len();
    let mut out = String::new();
    let mut i: usize = 0;
    proof {
        assert(s@.skip(0) =~= s@);
        assert(out@ + spec_decode_escapes(s@.skip(0), delimiters@) =~= spec_decode_escapes(
            s@,
            delimiters@,
        ));
    }
    while i < n
        invariant
            i <= n,
            n as nat == s@.len(),
            spec_decode_escapes(s@, delimiters@) == out@ + spec_decode_escapes(
                s@.skip(i as int),
                delimiters@,
            ),
        decreases n - i,
    {
        let ghost t = s@.skip(i as int);
        let c = s.get_char(i);
        proof {
            assert(t[0] == s@[i as int]);
        }
        if c == delimiters.escape {
            match find_char_from(s, i + 1, delimiters.escape) {
                None => {
                    let tail = s.substring_char(i, n);
                    out.append(tail);
                    proof {
                        assert(t.skip(1) =~= s@.skip(i as int + 1));
                        assert(first_index(t.skip(1), delimiters@.escape) is None);
                        assert(spec_decode_escapes(t, delimiters@) == t);
                        assert(tail@ =~= t);
                        assert(s@.skip(n as int) =~= Seq::<char>::empty());
                        assert(spec_decode_escapes(s@.skip(n as int), delimiters@) =~= Seq::<
                            char,
                        >::empty());
                    }
                    i = n;
                },
                Some(k) => {
                    let ghost j = k - i as int - 1;
                    proof {
                        assert(t.skip(1) =~= s@.skip(i as int + 1));
                        assert(first_index(t.skip(1), delimiters@.escape) == Some(j));
                        assert(t.subrange(1, 1 + j) =~= s@.subrange(i as int + 1, k as int));
                        assert(t.subrange(0, j + 2) =~= s@.subrange(i as int, k as int + 1));
                    }
                    let ghost code = t.subrange(1, 1 + j);
                    let code_len = k - i - 1;
                    if code_len == 1 {
                        let cc = s.get_char(i + 1);
                        proof {
                            assert(code[0] == s@[i as int + 1]);
                            assert(code.len() == 1);
                        }
                        if cc == 'F' {
                            proof {
                                assert(code =~= seq!['F']);
                            }
                            out.append(char_to_string(delimiters.field).as_str());
                        } else if cc == 'S' {
                            proof {
                                assert(code =~= seq!['S']);
                            }
                            out.append(char_to_string(delimiters.component).as_str());
                        } else if cc == 'T' {
                            proof {
                                assert(code =~= seq!['T']);
                            }
                            out.append(char_to_string(delimiters.subcomponent).as_str());
                        } else if cc == 'R' {
                            proof {
                                assert(code =~= seq!['R']);
                            }
                            out.append(char_to_string(delimiters.repetition).as_str());
                        } else if cc == 'E' {
                            proof {
                                assert(code =~= seq!['E']);
                            }
                            out.append(char_to_string(delimiters.escape).as_str());
                        } else {
                            let verbatim = s.substring_char(i, k + 1);
                            out.append(verbatim);
                        }
                    } else if code_len == 3 {
                        let c1 = s.get_char(i + 1);
                        let c2 = s.get_char(i + 2);
                        let c3 = s.get_char(i + 3);
                        proof {
                            assert(code[0] == s@[i as int + 1]);
                            assert(code[1] == s@[i as int + 2]);
                            assert(code[2] == s@[i as int + 3]);
                            assert(code.len() == 3);
                        }
                        if c1 == '.' && c2 == 'b' && c3 == 'r' {
                            proof {
                                assert(code =~= seq!['.', 'b', 'r']);
                                reveal_strlit("\n");
                            }
                            out.append("\n");
                        } else {
                            let verbatim = s.substring_char(i, k + 1);
                            out.append(verbatim);
                        }
                    } else {
                        let verbatim = s.substring_char(i, k + 1);
                        out.append(verbatim);
                    }
                    proof {
                        assert(s@.skip(i as int).skip(j + 2) =~= s@.skip(k as int + 1));
                    }
                    i = k + 1;
                },
            }
        } else {
            let piece = s.substring_char(i, i + 1);
            proof {
                assert(piece@ =~= seq![s@[i as int]]);
                assert(t.drop_first() =~= s@.skip(i as int + 1));
            }
            out.append(piece);
            i = i + 1;
        }
    }
    proof {
        assert(s@.skip(n as int) =~= Seq::<char>::empty());
        assert(spec_decode_escapes(s@.skip(n as int), delimiters@) =~= Seq::<char>::empty());
    }
    out
}

impl Component {
    /// This component's value with its escape sequences decoded.
    pub fn decoded_value(&self, delimiters: &Delimiters) -> (r: String)
        ensures
            r@ == spec_decode_escapes(self@.value, delimiters@),
    {
        decode_escapes(self.value.as_str(), delimiters)
    }
}

} // verus!
