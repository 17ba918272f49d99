//! The arguments with which the Windows bindings are generated.

use crate::chars::{lines, lines_of, texts, trim, trimmed, white_space};
use vstd::prelude::*;

verus! {

/// Whether a line of a filter file names something: it is neither empty nor a comment.
pub open spec fn is_filter(line: Seq<char>) -> bool {
    line.len() > 0 && !(line.len() > 1 && line[0] == '/' && line[1] == '/')
}

/// The filters of a filter file: its lines without white space around them, but for
/// empty lines and comments.
pub open spec fn filters_of(lines: Seq<Seq<char>>) -> Seq<Seq<char>>
    decreases lines.len(),
{
    if lines.len() == 0 {
        Seq::empty()
    } else {
        let before = filters_of(lines.drop_last());
        let line = trimmed(lines.last());
        if is_filter(line) {
            before.push(line)
        } else {
            before
        }
    }
}

/// The arguments that come before the filters.
pub open spec fn leading_args(output: Seq<char>, sys: bool) -> Seq<Seq<char>> {
    if sys {
        seq!["--out"@, output, "--sys"@, "--no-deps"@, "--filter"@]
    } else {
        seq!["--out"@, output, "--filter"@]
    }
}

fn line_is_filter(line: &str) -> (filter: bool)
    ensures
        filter == is_filter(line@),
{
    let chars = crate::chars::chars_of(line);
    chars.len() > 0 && !(chars.len() > 1 && chars[0] == '/' && chars[1] == '/')
}

/// The arguments that generate bindings of what a filter file names into an output
/// file; raw ones without their dependencies where `sys` is set.
pub fn bindgen_args(filters: &str, output: &str, sys: bool) -> (args: Vec<String>)
    ensures
        texts(args@) == leading_args(output@, sys) + filters_of(lines_of(filters@)),
{
    let mut args: Vec<String> = Vec::new();
    args.push("--out".to_owned());
    args.push(output.to_owned());
    if sys {
        args.push("--sys".to_owned());
        args.push("--no-deps".to_owned());
    }
    args.push("--filter".to_owned());
    assert(texts(args@) =~= leading_args(output@, sys));
    let list = lines(filters);
    let ghost all = texts(list@);
    let mut i: usize = 0;
    assert(all.take(0) =~= Seq::empty());
    assert(texts(args@) =~= leading_args(output@, sys) + filters_of(all.take(0)));
    while i < list.len()
        invariant
            i <= list.len(),
            all == texts(list@),
            texts(args@) == leading_args(output@, sys) + filters_of(all.take(i as int)),
        decreases list.len() - i,
    {
        let ghost before = args@;
        let line = trim(list[i].as_str());
        assert(all.take(i + 1).drop_last() =~= all.take(i as int));
        assert(all.take(i + 1).last() == list@[i as int]@);
        if line_is_filter(line.as_str()) {
            args.push(line);
            assert(texts(args@) =~= texts(before).push(line@));
            assert(texts(args@) =~= leading_args(output@, sys) + filters_of(all.take(i + 1)));
        }
        i = i + 1;
    }
    assert(all.take(i as int) =~= all);
    args
}

/// A line names something unless it is empty or begins with two slashes.
pub proof fn law_comments_are_no_filters(line: Seq<char>, rest: Seq<char>)
    ensures
        !is_filter(Seq::<char>::empty()),
        !is_filter(seq!['/', '/'] + rest),
        line.len() > 0 && (line[0] != '/' || line.len() == 1 || line[1] != '/') ==> is_filter(line),
{
    assert((seq!['/', '/'] + rest)[0] == '/' && (seq!['/', '/'] + rest)[1] == '/');
}

/// Filters are found line by line: each line gives what it is without the white space around it,
/// or nothing where that names nothing, and the filters come in the order of their lines.
pub proof fn law_filters_are_found_line_by_line(
    before: Seq<Seq<char>>,
    line: Seq<char>,
    behind: Seq<Seq<char>>,
)
    ensures
        filters_of(seq![line]) == if is_filter(trimmed(line)) {
            seq![trimmed(line)]
        } else {
            Seq::empty()
        },
        filters_of(before + behind) == filters_of(before) + filters_of(behind),
    decreases behind.len(),
{
    assert(seq![line].drop_last() =~= Seq::empty());
    assert(filters_of(seq![line].drop_last()) =~= Seq::empty());
    assert(filters_of(seq![line]) =~= if is_filter(trimmed(line)) {
        seq![trimmed(line)]
    } else {
        Seq::empty()
    });
    let all = before + behind;
    if behind.len() == 0 {
        assert(all =~= before);
        assert(filters_of(all) =~= filters_of(before) + filters_of(behind));
    } else {
        law_filters_are_found_line_by_line(before, line, behind.drop_last());
        assert(all.drop_last() =~= before + behind.drop_last());
        assert(all.last() == behind.last());
        assert(filters_of(all) =~= filters_of(before) + filters_of(behind));
    }
}

/// White space around a filter makes no difference.
pub proof fn law_white_space_around_filters_does_not_count(
    before: Seq<char>,
    name: Seq<char>,
    behind: Seq<char>,
)
    requires
        forall|i: int| 0 <= i < before.len() ==> white_space(#[trigger] before[i]),
        forall|i: int| 0 <= i < behind.len() ==> white_space(#[trigger] behind[i]),
        name.len() > 0 ==> !white_space(name[0]) && !white_space(name.last()),
    ensures
        filters_of(seq![before + name + behind]) == filters_of(seq![name]),
{
    let none = Seq::<char>::empty();
    crate::chars::law_trimming_takes_white_space_only(before, name, behind);
    crate::chars::law_trimming_takes_white_space_only(none, name, none);
    assert(none + name + none =~= name);
    law_filters_are_found_line_by_line(Seq::empty(), before + name + behind, Seq::empty());
    law_filters_are_found_line_by_line(Seq::empty(), name, Seq::empty());
}

/// Bindings go to the output that was asked for, which follows its flag, and the filters follow
/// theirs; raw bindings without dependencies are asked for exactly where they are wanted.
pub proof fn law_arguments_name_the_output_and_end_in_the_filter_flag(output: Seq<char>, sys: bool)
    ensures
        ({
            let args = leading_args(output, sys);
            &&& args[0] == "--out"@ && args[1] == output
            &&& args.last() == "--filter"@
            &&& args.len() == if sys {
                5nat
            } else {
                3
            }
            &&& sys ==> args[2] == "--sys"@ && args[3] == "--no-deps"@
        }),
{
}

} // verus!
