//! Splitting captured text into lines.
use vstd::prelude::*;
use vstd::std_specs::iter::IteratorSpec;

verus! {

/// `line` without one trailing carriage return, if it has one.
pub open spec fn strip_cr(line: Seq<char>) -> Seq<char> {
    if line.len() > 0 && line.last() == '\r' {
        line.drop_last()
    } else {
        line
    }
}

/// Scanning `s` from the left: the lines already ended by a newline, and the characters of
/// the line still open.
pub open spec fn scan_lines(s: Seq<char>) -> (Seq<Seq<char>>, Seq<char>)
    decreases s.len(),
{
    if s.len() == 0 {
        (Seq::empty(), Seq::empty())
    } else {
        let (closed, open) = scan_lines(s.drop_last());
        if s.last() == '\n' {
            (closed.push(strip_cr(open)), Seq::empty())
        } else {
            (closed, open.push(s.last()))
        }
    }
}

/// The lines of `s`: split at each `\n` (a `\r` just before it goes with it), with no
/// empty last line after a final newline.
pub open spec fn lines_of(s: Seq<char>) -> Seq<Seq<char>> {
    let (closed, open) = scan_lines(s);
    if open.len() == 0 {
        closed
    } else {
        closed.push(open)
    }
}

/// The views of a sequence of strings.
pub open spec fn views_of(v: Seq<String>) -> Seq<Seq<char>> {
    v.map_values(|s: String| s@)
}

/// Relies on `String::push`: the character is appended at the end.
#[verifier::external_body]
fn push_char(s: &mut String, c: char)
    ensures
        final(s)@ == old(s)@.push(c),
{
    s.push(c)
}

/// The lines of `text`, in order.
pub fn split_lines(text: &str) -> (r: Vec<String>)
    ensures
        views_of(r@) == lines_of(text@),
{
    broadcast use vstd::string::axiom_spec_iter, vstd::string::next_postcondition;

    let ghost s = text@;
    let mut chars = text.chars();
    let mut done: Vec<String> = Vec::new();
    let mut current = String::new();
    let mut pending_cr = false;
    let ghost mut k: int = 0;
    loop
        invariant
            0 <= k <= s.len(),
            chars.remaining() == s.skip(k),
            chars.obeys_prophetic_iter_laws(),
            views_of(done@) == scan_lines(s.take(k)).0,
            pending_cr ==> scan_lines(s.take(k)).1 == current@.push('\r'),
            !pending_cr ==> scan_lines(s.take(k)).1 == current@,
            !pending_cr ==> current@.len() == 0 || current@.last() != '\r',
        ensures
            k == s.len(),
        decreases s.len() - k,
    {
        let ghost before = s.take(k);
        match chars.next() {
            None => {
                assert(s.skip(k).len() == 0);
                break;
            },
            Some(c) => {
                let ghost old_done = done@;
                proof {
                    assert(s.take(k + 1).drop_last() == before);
                    assert(s.take(k + 1).last() == c);
                    assert(scan_lines(s.take(k + 1)) == (if c == '\n' {
                        (scan_lines(before).0.push(strip_cr(scan_lines(before).1)), Seq::empty())
                    } else {
                        (scan_lines(before).0, scan_lines(before).1.push(c))
                    }));
                }
                if c == '\n' {
                    proof {
                        if pending_cr {
                            assert(current@.push('\r').drop_last() =~= current@);
                        }
                        assert(strip_cr(scan_lines(before).1) == current@);
                    }
                    let line = current;
                    done.push(line);
                    current = String::new();
                    pending_cr = false;
                    proof {
                        assert(views_of(done@) =~= views_of(old_done).push(line@));
                    }
                } else if c == '\r' {
                    if pending_cr {
                        push_char(&mut current, '\r');
                    }
                    pending_cr = true;
                } else {
                    if pending_cr {
                        push_char(&mut current, '\r');
                    }
                    push_char(&mut current, c);
                    pending_cr = false;
                }
                proof {
                    k = k + 1;
                }
            },
        }
    }
    if pending_cr {
        push_char(&mut current, '\r');
    }
    let ghost old_done = done@;
    let ghost open = current@;
    assert(s.take(k) =~= s);
    assert(scan_lines(s) == (views_of(old_done), open));
    if !current.as_str().is_empty() {
        done.push(current);
        assert(views_of(done@) =~= views_of(old_done).push(open));
    }
    done
}

} // verus!
