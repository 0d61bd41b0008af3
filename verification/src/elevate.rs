//! Relaunching with administrator rights: installed files under
//! `C:\Program Files` can only be changed elevated. Checking the token and
//! relaunching are done by the caller; this module decides whether to and
//! builds the command line that is passed on.

use vstd::prelude::*;
use vstd::string::StringExecFns;
use crate::infra::text::chars_of;

verus! {

/// A relaunch is needed unless it was switched off (`MIPCM_NO_ELEVATE`) or
/// the process is elevated already.
pub fn relaunch_needed(switched_off: bool, elevated: bool) -> (r: bool)
    ensures
        r == (!switched_off && !elevated),
{
    !switched_off && !elevated
}

/// `a` with every `"` preceded by a backslash.
pub open spec fn escape_quotes(a: Seq<char>) -> Seq<char>
    decreases a.len(),
{
    if a.len() == 0 {
        Seq::empty()
    } else {
        escape_quotes(a.drop_last()) + (if a.last() == '"' { seq!['\\', '"'] } else { seq![a.last()] })
    }
}

/// An argument needs quotes when it is empty or holds a space, a tab or a quote.
pub open spec fn needs_quotes(a: Seq<char>) -> bool {
    a.len() == 0 || exists|i: int| 0 <= i < a.len() && (a[i] == ' ' || a[i] == '\t' || a[i] == '"')
}

/// An argument as it is passed on: quoted, with its quotes escaped, when it
/// needs quotes, else as it is.
pub open spec fn spec_quote_arg(a: Seq<char>) -> Seq<char> {
    if needs_quotes(a) { seq!['"'] + escape_quotes(a) + seq!['"'] } else { a }
}

/// Quotes one argument for the relaunch command line.
pub fn quote_arg(a: &str) -> (r: String)
    ensures
        r@ == spec_quote_arg(a@),
{
    let cs = chars_of(a);
    let mut needs = cs.len() == 0;
    let mut esc = String::new();
    let mut i: usize = 0;
    while i < cs.len()
        invariant
            cs@ == a@,
            i <= cs@.len(),
            esc@ == escape_quotes(a@.take(i as int)),
            needs == (a@.len() == 0 || exists|k: int| 0 <= k < i && (a@[k] == ' ' || a@[k] == '\t' || a@[k] == '"')),
        decreases cs@.len() - i,
    {
        let c = cs[i];
        assert(a@[i as int] == c);
        if c == ' ' || c == '\t' || c == '"' {
            needs = true;
        }
        if c == '"' {
            esc.append("\\\"");
        } else {
            let one = crate::infra::text::char_string(c);
            esc.append(one.as_str());
        }
        proof {
            reveal_strlit("\\\"");
            assert(a@.take(i + 1).drop_last() =~= a@.take(i as int));
        }
        i = i + 1;
    }
    assert(a@.take(a@.len() as int) =~= a@);
    if needs {
        let mut q = String::from_str("\"");
        q.append(esc.as_str());
        q.append("\"");
        proof {
            reveal_strlit("\"");
        }
        q
    } else {
        String::from_str(a)
    }
}

} // verus!
