use vstd::prelude::*;
use crate::text::char_vec;
use crate::text::push_char;

verus! {

/// The home-directory substitution of `s[i..]`, given whether an escape
/// marker is pending. A backslash that is not itself escaped is consumed and
/// escapes the next character; an unescaped tilde expands to the whole home
/// path; every other character is copied and clears the escape.
pub open spec fn substitute_from(
    s: Seq<char>,
    i: int,
    home: Seq<char>,
    escaped: bool,
) -> Seq<char>
    decreases s.len() - i,
{
    if i < 0 || i >= s.len() {
        Seq::empty()
    } else if s[i] == '\\' && !escaped {
        substitute_from(s, i + 1, home, true)
    } else if s[i] == '~' && !escaped {
        home + substitute_from(s, i + 1, home, false)
    } else {
        seq![s[i]] + substitute_from(s, i + 1, home, false)
    }
}

/// A whole line with every unescaped `~` replaced by the home path and every
/// escape marker consumed.
pub open spec fn substituted(s: Seq<char>, home: Seq<char>) -> Seq<char> {
    substitute_from(s, 0, home, false)
}

/// Replace every unescaped `~` in `input` with `home`; a backslash escapes
/// the character after it and is itself dropped from the output.
#[verifier::loop_isolation(false)]
pub fn substitute(input: &str, home: &str) -> (r: String)
    ensures
        r@ == substituted(input@, home@),
{
    let chars = char_vec(input);
    let n = chars.len();
    let mut out = String::new();
    let mut escaped = false;
    proof {
        assert(Seq::<char>::empty() + substituted(input@, home@) =~= substituted(
            input@,
            home@,
        ));
    }
    for i in 0..n
        invariant
            n == chars@.len(),
            chars@ == input@,
            substituted(input@, home@) == out@ + substitute_from(
                input@,
                i as int,
                home@,
                escaped,
            ),
    {
        let ghost ii = i as int;
        let ghost prevo = out@;
        let ghost esc = escaped;
        let ch = chars[i];
        if ch == '\\' && !escaped {
            escaped = true;
            proof {
                assert(substitute_from(input@, ii, home@, esc) == substitute_from(
                    input@,
                    ii + 1,
                    home@,
                    true,
                ));
            }
        } else if ch == '~' && !escaped {
            out.append(home);
            proof {
                let rest = substitute_from(input@, ii + 1, home@, false);
                assert(substitute_from(input@, ii, home@, esc) == home@ + rest);
                assert(prevo + (home@ + rest) =~= (prevo + home@) + rest);
            }
        } else {
            escaped = false;
            push_char(&mut out, ch);
            proof {
                let rest = substitute_from(input@, ii + 1, home@, false);
                assert(substitute_from(input@, ii, home@, esc) == seq![ch] + rest);
                assert(prevo + (seq![ch] + rest) =~= prevo.push(ch) + rest);
            }
        }
    }
    proof {
        assert(out@ + Seq::<char>::empty() =~= out@);
    }
    out
}

} // verus!
