use vstd::prelude::*;

verus! {

/// One step of reading a request's head, line by line: a non-empty line is
/// kept and reading goes on; the first empty line ends the head and is not
/// kept. Returns whether more lines are wanted.
pub fn accept_line(head: &mut Vec<String>, line: String) -> (more: bool)
    ensures
        more == (line@.len() > 0),
        more ==> final(head)@ == old(head)@.push(line),
        !more ==> final(head)@ == old(head)@,
{
    if line.as_str().is_empty() {
        false
    } else {
        head.push(line);
        true
    }
}

} // verus!
