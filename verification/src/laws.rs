//! The promises the controller keeps, stated once over the transition model
//! (`next_state`, `emitted_commands`, `projection`) and proved for every
//! state. `Content::update` ties its result to that model, so each law here
//! holds of the running controller as well.

use crate::content::{
    emitted_commands, has_task, index_of_task, lemma_index_of_task, next_state, projection,
    remove_id, staged_task, with_priority, with_status, with_title, CommandV, ContentV, MessageV,
    ViewModelV,
};
use crate::model::{ListV, Priority, Status, TaskV};
use vstd::prelude::*;

verus! {

/// One delete event emits exactly one delete command carrying the same id,
/// whether or not any task on display carries it.
pub proof fn lemma_delete_always_emits(pre: ContentV, id: Seq<char>, fresh_id: Seq<char>)
    ensures
        emitted_commands(pre, MessageV::Delete(id), fresh_id) =~= seq![CommandV::Delete(id)],
{
}

/// The commands a run of delete events emits, applied front to back, in
/// order.
pub open spec fn commands_after_deletes(pre: ContentV, ids: Seq<Seq<char>>) -> Seq<CommandV>
    decreases ids.len(),
{
    if ids.len() == 0 {
        Seq::empty()
    } else {
        emitted_commands(pre, MessageV::Delete(ids[0]), Seq::empty()) + commands_after_deletes(
            next_state(pre, MessageV::Delete(ids[0]), Seq::empty()),
            ids.drop_first(),
        )
    }
}

/// One delete command per id, in the ids' order.
pub open spec fn delete_commands(ids: Seq<Seq<char>>) -> Seq<CommandV> {
    ids.map_values(|id: Seq<char>| CommandV::Delete(id))
}

/// However long the run and whatever the state, a run of delete events emits
/// exactly one delete command per event, each carrying its event's id.
pub proof fn lemma_deletes_emit_one_command_each(pre: ContentV, ids: Seq<Seq<char>>)
    ensures
        commands_after_deletes(pre, ids) =~= delete_commands(ids),
    decreases ids.len(),
{
    if ids.len() == 0 {
        assert(delete_commands(ids) =~= Seq::<CommandV>::empty());
    } else {
        let next = next_state(pre, MessageV::Delete(ids[0]), Seq::empty());
        lemma_deletes_emit_one_command_each(next, ids.drop_first());
        assert(commands_after_deletes(pre, ids) =~= seq![CommandV::Delete(ids[0])]
            + delete_commands(ids.drop_first()));
        assert(commands_after_deletes(pre, ids) =~= delete_commands(ids));
    }
}

/// Submitting while a list is selected appends exactly one task carrying the
/// staged title and the list's id, with the defaults, clears the input, and
/// emits exactly one create command carrying that same task.
pub proof fn lemma_submit_with_list(pre: ContentV, l: ListV, fresh_id: Seq<char>)
    requires
        pre.list == Some(l),
    ensures
        ({
            let post = next_state(pre, MessageV::AddTask, fresh_id);
            let t = staged_task(fresh_id, pre.input, l.id);
            &&& post.tasks =~= pre.tasks.push(t)
            &&& post.tasks.len() == pre.tasks.len() + 1
            &&& t.title == pre.input
            &&& t.list_id == l.id
            &&& t.status == Status::NotStarted
            &&& t.priority == Priority::Low
            &&& post.input =~= Seq::<char>::empty()
            &&& post.list == pre.list
            &&& emitted_commands(pre, MessageV::AddTask, fresh_id) =~= seq![
                CommandV::CreateTask(t),
            ]
        }),
{
}

/// Submitting with no list selected changes nothing and emits nothing.
pub proof fn lemma_submit_without_list(pre: ContentV, fresh_id: Seq<char>)
    requires
        pre.list is None,
    ensures
        next_state(pre, MessageV::AddTask, fresh_id) == pre,
        emitted_commands(pre, MessageV::AddTask, fresh_id) =~= Seq::<CommandV>::empty(),
{
}

/// An edit aimed at an id no task carries is a silent no-op: the state is
/// kept and nothing is emitted, for completion, priority and title edits
/// alike.
pub proof fn lemma_missing_id_is_noop(
    pre: ContentV,
    id: Seq<char>,
    complete: bool,
    p: Priority,
    title: Seq<char>,
    fresh_id: Seq<char>,
)
    requires
        !has_task(pre.tasks, id),
    ensures
        next_state(pre, MessageV::Complete(id, complete), fresh_id) == pre,
        emitted_commands(pre, MessageV::Complete(id, complete), fresh_id) =~= Seq::<
            CommandV,
        >::empty(),
        next_state(pre, MessageV::SetPriority(id, p), fresh_id) == pre,
        emitted_commands(pre, MessageV::SetPriority(id, p), fresh_id) =~= Seq::<
            CommandV,
        >::empty(),
        next_state(pre, MessageV::Rename(id, title), fresh_id) == pre,
        emitted_commands(pre, MessageV::Rename(id, title), fresh_id) =~= Seq::<
            CommandV,
        >::empty(),
{
    lemma_index_of_task(pre.tasks, id);
    let k = index_of_task(pre.tasks, id);
    if k != -1 {
        assert(0 <= k < pre.tasks.len() && pre.tasks[k].id == id);
        assert(has_task(pre.tasks, id));
    }
}

/// Completing a task that is present updates exactly that task's status and
/// nothing else, and emits one update command carrying the full updated task.
pub proof fn lemma_complete_updates_one_task(
    pre: ContentV,
    id: Seq<char>,
    complete: bool,
    fresh_id: Seq<char>,
)
    requires
        has_task(pre.tasks, id),
    ensures
        ({
            let k = index_of_task(pre.tasks, id);
            let post = next_state(pre, MessageV::Complete(id, complete), fresh_id);
            &&& 0 <= k < pre.tasks.len()
            &&& pre.tasks[k].id == id
            &&& post.tasks.len() == pre.tasks.len()
            &&& post.tasks[k] == with_status(pre.tasks[k], complete)
            &&& post.tasks[k].status == (if complete {
                Status::Completed
            } else {
                Status::NotStarted
            })
            &&& post.tasks[k].id == pre.tasks[k].id
            &&& post.tasks[k].title == pre.tasks[k].title
            &&& post.tasks[k].priority == pre.tasks[k].priority
            &&& post.tasks[k].list_id == pre.tasks[k].list_id
            &&& forall|j: int|
                0 <= j < pre.tasks.len() && j != k ==> post.tasks[j] == pre.tasks[j]
            &&& post.list == pre.list
            &&& post.input == pre.input
            &&& emitted_commands(pre, MessageV::Complete(id, complete), fresh_id) =~= seq![
                CommandV::UpdateTask(with_status(pre.tasks[k], complete)),
            ]
        }),
{
    lemma_index_of_task(pre.tasks, id);
    let k = index_of_task(pre.tasks, id);
    if k == -1 {
        let i = choose|i: int| 0 <= i < pre.tasks.len() && pre.tasks[i].id == id;
        assert(pre.tasks[i].id != id);
    }
}

/// Replacing the tasks with an empty snapshot yields the empty-state
/// projection, whatever was on display before.
pub proof fn lemma_clearing_tasks_empties_view(pre: ContentV, fresh_id: Seq<char>)
    ensures
        projection(next_state(pre, MessageV::SetItems(Seq::empty()), fresh_id))
            == ViewModelV::Empty,
{
}

/// Editing the input twice with the same text leaves exactly the state one
/// edit leaves, and neither edit emits a command.
pub proof fn lemma_edit_input_idempotent(
    pre: ContentV,
    text: Seq<char>,
    fresh_a: Seq<char>,
    fresh_b: Seq<char>,
)
    ensures
        ({
            let once = next_state(pre, MessageV::Input(text), fresh_a);
            let twice = next_state(once, MessageV::Input(text), fresh_b);
            &&& once.input == text
            &&& twice == once
            &&& emitted_commands(pre, MessageV::Input(text), fresh_a) =~= Seq::<CommandV>::empty()
            &&& emitted_commands(once, MessageV::Input(text), fresh_b) =~= Seq::<
                CommandV,
            >::empty()
        }),
{
    let once = next_state(pre, MessageV::Input(text), fresh_a);
    let twice = next_state(once, MessageV::Input(text), fresh_b);
    assert(twice =~~= once);
}

/// The staged input changes only when the user edits it, and is cleared
/// exactly when a task is successfully staged.
pub proof fn lemma_input_buffer_discipline(pre: ContentV, msg: MessageV, fresh_id: Seq<char>)
    ensures
        ({
            let post = next_state(pre, msg, fresh_id);
            match msg {
                MessageV::Input(text) => post.input == text,
                MessageV::AddTask => if pre.list is Some {
                    post.input =~= Seq::<char>::empty()
                } else {
                    post.input == pre.input
                },
                _ => post.input == pre.input,
            }
        }),
{
}

/// No two tasks on display carry the same id.
pub open spec fn unique_ids(tasks: Seq<TaskV>) -> bool {
    forall|i: int, j: int| 0 <= i < j < tasks.len() ==> tasks[i].id != tasks[j].id
}

/// Removing an id keeps the remaining ids unique and invents no task: every
/// survivor already stood in the sequence.
proof fn lemma_remove_id_keeps_unique(tasks: Seq<TaskV>, id: Seq<char>)
    requires
        unique_ids(tasks),
    ensures
        unique_ids(remove_id(tasks, id)),
        forall|i: int|
            0 <= i < remove_id(tasks, id).len() ==> tasks.contains(
                #[trigger] remove_id(tasks, id)[i],
            ),
    decreases tasks.len(),
{
    reveal(Seq::filter);
    if tasks.len() == 0 {
    } else {
        let s = tasks.drop_last();
        let x = tasks.last();
        assert(forall|i: int| 0 <= i < s.len() ==> s[i] == tasks[i]);
        lemma_remove_id_keeps_unique(s, id);
        let out_s = remove_id(s, id);
        assert forall|i: int| 0 <= i < out_s.len() implies tasks.contains(
            #[trigger] out_s[i],
        ) by {
            let j = choose|j: int| 0 <= j < s.len() && s[j] == out_s[i];
            assert(tasks[j] == out_s[i]);
        }
        if x.id != id {
            assert(remove_id(tasks, id) == out_s.push(x));
            assert forall|i: int| 0 <= i < out_s.len() implies out_s[i].id != x.id by {
                let j = choose|j: int| 0 <= j < s.len() && s[j] == out_s[i];
                assert(tasks[j].id != tasks[tasks.len() - 1].id);
            }
        } else {
            assert(remove_id(tasks, id) == out_s);
        }
    }
}

/// Every event keeps task ids unique, provided a snapshot the backend
/// delivers is itself free of duplicates and the id a staged task receives is
/// indeed fresh.
pub proof fn lemma_unique_ids_preserved(pre: ContentV, msg: MessageV, fresh_id: Seq<char>)
    requires
        unique_ids(pre.tasks),
        (msg matches MessageV::SetItems(ts) ==> unique_ids(ts)),
        (msg is AddTask ==> !has_task(pre.tasks, fresh_id)),
    ensures
        unique_ids(next_state(pre, msg, fresh_id).tasks),
{
    let post = next_state(pre, msg, fresh_id);
    match msg {
        MessageV::Delete(id) => {
            lemma_remove_id_keeps_unique(pre.tasks, id);
        },
        MessageV::AddTask => {
            if pre.list is Some {
                assert(forall|i: int|
                    0 <= i < pre.tasks.len() ==> #[trigger] pre.tasks[i].id != fresh_id);
                assert(post.tasks.len() == pre.tasks.len() + 1);
                assert(forall|i: int|
                    0 <= i < pre.tasks.len() ==> post.tasks[i] == pre.tasks[i]);
            }
        },
        MessageV::Complete(id, complete) => {
            lemma_index_of_task(pre.tasks, id);
            let k = index_of_task(pre.tasks, id);
            if k >= 0 {
                assert forall|i: int| 0 <= i < post.tasks.len() implies #[trigger] post.tasks[i].id
                    == pre.tasks[i].id by {
                    if i == k {
                        assert(post.tasks[i] == with_status(pre.tasks[k], complete));
                    } else {
                        assert(post.tasks[i] == pre.tasks[i]);
                    }
                }
            }
        },
        MessageV::SetPriority(id, p) => {
            lemma_index_of_task(pre.tasks, id);
            let k = index_of_task(pre.tasks, id);
            if k >= 0 {
                assert forall|i: int| 0 <= i < post.tasks.len() implies #[trigger] post.tasks[i].id
                    == pre.tasks[i].id by {
                    if i == k {
                        assert(post.tasks[i] == with_priority(pre.tasks[k], p));
                    } else {
                        assert(post.tasks[i] == pre.tasks[i]);
                    }
                }
            }
        },
        MessageV::Rename(id, title) => {
            lemma_index_of_task(pre.tasks, id);
            let k = index_of_task(pre.tasks, id);
            if k >= 0 {
                assert forall|i: int| 0 <= i < post.tasks.len() implies #[trigger] post.tasks[i].id
                    == pre.tasks[i].id by {
                    if i == k {
                        assert(post.tasks[i] == with_title(pre.tasks[k], title));
                    } else {
                        assert(post.tasks[i] == pre.tasks[i]);
                    }
                }
            }
        },
        _ => {},
    }
}

} // verus!
