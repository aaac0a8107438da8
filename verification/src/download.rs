//! The download command's configuration and its one piece of logic worth
//! stating: turning a challenge name into a safe folder name. The command's
//! prompts, directory handling and file writes live at the I/O edge.
use vstd::prelude::*;

verus! {

/// The download command's configuration: where to place the challenges, and
/// whether to skip the interactive approvals.
pub struct Download {
    /// where to place challenges
    pub out_path: String,
    /// say yes
    pub force: bool,
}

/// Spaces become underscores before filtering, so words stay separated in
/// the folder name.
pub open spec fn spec_space_to_underscore(c: char) -> char {
    if c == ' ' {
        '_'
    } else {
        c
    }
}

/// Only ASCII letters, digits and the underscore survive into a folder name.
pub open spec fn spec_kept(c: char) -> bool {
    ('a' as u32 <= c as u32 && c as u32 <= 'z' as u32) || ('A' as u32 <= c as u32 && c as u32
        <= 'Z' as u32) || ('0' as u32 <= c as u32 && c as u32 <= '9' as u32) || c == '_'
}

/// The space-to-underscore step as a fixed function value.
pub open spec fn space_map() -> spec_fn(char) -> char {
    |c: char| spec_space_to_underscore(c)
}

/// The keep test as a fixed predicate value.
pub open spec fn keep_pred() -> spec_fn(char) -> bool {
    |c: char| spec_kept(c)
}

/// A name's folder form: every space an underscore, and everything that is
/// not an ASCII letter, digit or underscore dropped, in order.
pub open spec fn spec_sanitize(s: Seq<char>) -> Seq<char> {
    s.map_values(space_map()).filter(keep_pred())
}

/// Relies on `String::push`: appends exactly the given character.
#[verifier::external_body]
fn push_char(out: &mut String, c: char)
    ensures
        final(out)@ == old(out)@.push(c),
{
    out.push(c);
}

impl Download {
    /// Derives the folder name a challenge's files go under.
    #[verifier::loop_isolation(false)]
    pub fn sanitize_name(name: &str) -> (r: String)
        ensures
            r@ == spec_sanitize(name@),
    {
        let n = name.unicode_len();
        let mut out = String::new();
        let mut i: usize = 0;
        proof {
            reveal(Seq::filter);
            assert(name@.subrange(0, 0).map_values(space_map()) =~= Seq::<char>::empty());
            assert(out@ =~= spec_sanitize(name@.subrange(0, 0)));
        }
        while i < n
            invariant
                i <= n,
                n == name@.len(),
                out@ == spec_sanitize(name@.subrange(0, i as int)),
            decreases n - i,
        {
            let c = name.get_char(i);
            let mc: char = if c == ' ' {
                '_'
            } else {
                c
            };
            let code: u32 = mc as u32;
            let keep: bool = (97 <= code && code <= 122) || (65 <= code && code <= 90) || (48
                <= code && code <= 57) || code == 95;
            proof {
                reveal(Seq::filter);
                assert(mc == spec_space_to_underscore(name@[i as int]));
                assert(keep == spec_kept(mc));
                assert(name@.subrange(0, i + 1).map_values(space_map()) =~= name@.subrange(
                    0,
                    i as int,
                ).map_values(space_map()).push(mc));
                assert(name@.subrange(0, i + 1).map_values(space_map()).drop_last()
                    =~= name@.subrange(0, i as int).map_values(space_map()));
            }
            if keep {
                push_char(&mut out, mc);
            }
            proof {
                assert(out@ =~= spec_sanitize(name@.subrange(0, i + 1)));
            }
            i = i + 1;
        }
        proof {
            assert(name@.subrange(0, name@.len() as int) =~= name@);
        }
        out
    }
}

} // verus!
