//! Parsing the tabular output of the model-listing command: the first line is
//! a header and is skipped; each remaining line contributes its first
//! whitespace-separated token as a model identifier.

use vstd::prelude::*;

use crate::chars::{is_blank, is_ws, scan_char, ws_char};
use crate::stream::spec_lines;

verus! {

/// `i..j` is the span of the first whitespace-separated token of `line`.
pub open spec fn is_token_span(line: Seq<char>, i: int, j: int) -> bool {
    &&& 0 <= i < j <= line.len()
    &&& (forall|k: int| 0 <= k < i ==> is_ws(line[k]))
    &&& (forall|k: int| i <= k < j ==> !is_ws(line[k]))
    &&& (j == line.len() || is_ws(line[j]))
}

/// The first whitespace-separated token of `line`, if the line holds any
/// non-whitespace character.
pub open spec fn first_token(line: Seq<char>) -> Option<Seq<char>> {
    if is_blank(line) {
        None
    } else {
        let (i, j) = choose|i: int, j: int| is_token_span(line, i, j);
        Some(line.subrange(i, j))
    }
}

/// The first token of each line that has one, in order.
pub open spec fn token_list(lines: Seq<Seq<char>>) -> Seq<Seq<char>>
    decreases lines.len(),
{
    if lines.len() == 0 {
        Seq::empty()
    } else {
        match first_token(lines[0]) {
            Some(t) => seq![t] + token_list(lines.drop_first()),
            None => token_list(lines.drop_first()),
        }
    }
}

/// The model identifiers the listing output names: the first token of every
/// line after the header line.
pub open spec fn models_of(out: Seq<char>) -> Seq<Seq<char>> {
    token_list(spec_lines(out).drop_first())
}

/// The first whitespace-separated token of one line, as `first_token` says.
fn token_of_line(line: &str) -> (r: Option<String>)
    ensures
        match r {
            Some(t) => first_token(line@) == Some(t@),
            None => first_token(line@) is None,
        },
{
    let n = line.unicode_len();
    let mut i: usize = 0;
    while i < n && ws_char(line.get_char(i))
        invariant
            i <= n,
            n == line@.len(),
            forall|k: int| 0 <= k < i ==> is_ws(line@[k]),
        decreases n - i,
    {
        i = i + 1;
    }
    if i == n {
        proof {
            assert(is_blank(line@));
        }
        return None;
    }
    let mut j = i;
    while j < n && !ws_char(line.get_char(j))
        invariant
            i <= j <= n,
            n == line@.len(),
            forall|k: int| i <= k < j ==> !is_ws(line@[k]),
        decreases n - j,
    {
        j = j + 1;
    }
    let tok = line.substring_char(i, j);
    proof {
        assert(!is_ws(line@[i as int]));
        assert(!is_blank(line@));
        assert(is_token_span(line@, i as int, j as int));
        assert forall|x: int, y: int| is_token_span(line@, x, y) implies x == i as int && y
            == j as int by {
            if x < i {
                assert(is_ws(line@[x]));
            }
            if x > i {
                assert(is_ws(line@[i as int]));
            }
            if y < j {
                assert(!is_ws(line@[y]));
            }
            if y > j && (j as int) < line@.len() {
                assert(!is_ws(line@[j as int]));
            }
        }
        assert(tok@ =~= line@.subrange(i as int, j as int));
    }
    Some(tok.to_owned())
}

/// Parse the listing output: skip the header line, then take the first token
/// of each remaining line, exactly as `models_of` says.
pub fn parse_model_list(out: &str) -> (r: Vec<String>)
    ensures
        r@.map_values(|s: String| s@) == models_of(out@),
{
    let n = out.unicode_len();
    let mut models: Vec<String> = Vec::new();
    proof {
        assert(out@.skip(0) =~= out@);
    }
    let mut start: usize = match scan_char(out, 0, '\n') {
        Some(j) => j + 1,
        None => {
            proof {
                assert(spec_lines(out@) == seq![out@]);
                assert(spec_lines(out@).drop_first() =~= Seq::<Seq<char>>::empty());
                assert(models@.map_values(|s: String| s@) =~= models_of(out@));
            }
            return models;
        },
    };
    proof {
        assert(spec_lines(out@).drop_first() =~= spec_lines(out@.skip(start as int)));
    }
    loop
        invariant_except_break
            start <= n,
            n == out@.len(),
            models@.map_values(|s: String| s@) + token_list(spec_lines(out@.skip(start as int)))
                == models_of(out@),
        ensures
            models@.map_values(|s: String| s@) == models_of(out@),
        decreases n - start,
    {
        let scan = scan_char(out, start, '\n');
        let line_end = match scan {
            Some(j) => j,
            None => n,
        };
        let line = out.substring_char(start, line_end);
        let ghost suffix = out@.skip(start as int);
        let ghost pre = models@.map_values(|s: String| s@);
        proof {
            assert(line@ =~= suffix.take(line_end - start));
            match scan {
                Some(j) => {
                    assert(spec_lines(suffix) == seq![suffix.take(j - start)] + spec_lines(
                        suffix.skip(j - start + 1),
                    ));
                    assert(suffix.skip(line_end - start + 1) =~= out@.skip(line_end + 1));
                },
                None => {
                    assert(spec_lines(suffix) == seq![suffix]);
                    assert(line@ =~= suffix);
                },
            }
            assert(spec_lines(suffix)[0] == line@);
        }
        match token_of_line(line) {
            Some(t) => {
                models.push(t);
                proof {
                    assert(models@.map_values(|s: String| s@) =~= pre.push(t@));
                }
            },
            None => {},
        }
        let ghost now = models@.map_values(|s: String| s@);
        match scan {
            Some(j) => {
                proof {
                    let rest = spec_lines(out@.skip(j + 1));
                    assert(spec_lines(suffix).drop_first() =~= rest);
                    assert(now + token_list(rest) =~= models_of(out@)) by {
                        assert(token_list(spec_lines(suffix)) == match first_token(line@) {
                            Some(t) => seq![t] + token_list(rest),
                            None => token_list(rest),
                        });
                    }
                }
                start = j + 1;
            },
            None => {
                proof {
                    assert(spec_lines(suffix).drop_first() =~= Seq::<Seq<char>>::empty());
                    assert(token_list(spec_lines(suffix)) == match first_token(line@) {
                        Some(t) => seq![t] + token_list(Seq::<Seq<char>>::empty()),
                        None => token_list(Seq::<Seq<char>>::empty()),
                    });
                    assert(now =~= models_of(out@)) by {
                        if let Some(t) = first_token(line@) {
                            assert(seq![t] + Seq::<Seq<char>>::empty() =~= seq![t]);
                        }
                    }
                }
                break ;
            },
        }
    }
    models
}

} // verus!
