//! Move completed tasks from todo.txt to done.txt

use vstd::prelude::*;
use crate::list::count_of_completed;
use crate::list::line_views;
use crate::list::Line;
use crate::list::LineKind;
use crate::list::LineView;

verus! {

/// What stays in the todo list of the lines `src`: each line, with a blank
/// line in place of each completed task.
pub open spec fn lines_to_keep(src: Seq<LineView>) -> Seq<LineView> {
    src.map_values(
        |l: LineView|
            if l.is_completed() {
                LineView::blank()
            } else {
                l
            },
    )
}

/// What goes to the done list of the lines `src`: the completed tasks, in
/// order, each without its line number.
pub open spec fn lines_to_archive(src: Seq<LineView>) -> Seq<LineView>
    decreases src.len(),
{
    if src.len() == 0 {
        seq![]
    } else if src.last().is_completed() {
        lines_to_archive(src.drop_last()).push(LineView { num: 0, ..src.last() })
    } else {
        lines_to_archive(src.drop_last())
    }
}

/// Logic of archiving a todo.txt to a done.txt, but with Vec<Line>.
///
/// Returns the number of lines archived.
pub fn run_archive_vec(src: &Vec<Line>, todo: &mut Vec<Line>, done: &mut Vec<Line>) -> (moved: i32)
    requires
        src.len() <= i32::MAX,
        forall|k: int| 0 <= k < src.len() ==> (#[trigger] src[k]).is_well_formed(),
    ensures
        moved == count_of_completed(line_views(src@)),
        line_views(final(todo)@) == line_views(old(todo)@) + lines_to_keep(line_views(src@)),
        line_views(final(done)@) == line_views(old(done)@) + lines_to_archive(line_views(src@)),
{
    let mut moved: i32 = 0;
    let mut k: usize = 0;
    let ghost views = line_views(src@);
    assert(line_views(todo@) =~= line_views(old(todo)@) + lines_to_keep(views.take(0)));
    assert(line_views(done@) =~= line_views(old(done)@) + lines_to_archive(views.take(0)));
    while k < src.len()
        invariant
            k <= src.len(),
            src.len() <= i32::MAX,
            views == line_views(src@),
            forall|j: int| 0 <= j < src.len() ==> (#[trigger] src[j]).is_well_formed(),
            moved == count_of_completed(views.take(k as int)),
            moved <= k,
            line_views(todo@) == line_views(old(todo)@) + lines_to_keep(views.take(k as int)),
            line_views(done@) == line_views(old(done)@) + lines_to_archive(views.take(k as int)),
        decreases src.len() - k,
    {
        let line = &src[k];
        let ghost todo_before = line_views(todo@);
        let ghost done_before = line_views(done@);
        proof {
            assert(views.take(k + 1).drop_last() =~= views.take(k as int));
            assert(views.take(k + 1).last() == line@);
            assert(lines_to_keep(views.take(k + 1)) =~= lines_to_keep(views.take(k as int)).push(
                if line@.is_completed() {
                    LineView::blank()
                } else {
                    line@
                },
            ));
        }
        let completed = line.kind == LineKind::Item && match &line.item {
            Some(item) => item.completion(),
            None => false,
        };
        if completed {
            match &line.item {
                Some(item) => {
                    let new = Line {
                        kind: LineKind::Item,
                        text: line.text.clone(),
                        item: Some(item.clone()),
                        num: 0,
                    };
                    moved += 1;
                    done.push(new);
                    assert(line_views(done@) =~= done_before.push(LineView { num: 0, ..line@ }));
                    todo.push(Line::new_blank());
                    assert(line_views(todo@) =~= todo_before.push(LineView::blank()));
                },
                None => {},
            }
        } else {
            todo.push(line.clone());
            assert(line_views(todo@) =~= todo_before.push(line@));
        }
        k += 1;
    }
    assert(views.take(src.len() as int) =~= views);
    moved
}

} // verus!
