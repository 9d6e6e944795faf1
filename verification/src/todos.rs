//! The todo store: create, list, fetch, toggle and delete tasks, every
//! operation filtered by the owning user's id. A row that exists but
//! belongs to another user answers exactly like an absent one.

use vstd::prelude::*;
use crate::errors::StoreError;
use crate::lookup::{find_by, lemma_find_by_characterization, unique_by};
use crate::models::{CreateTodo, Todo, TodoView};
use crate::text::{check_blank, is_blank};

verus! {

/// The todo stored under `todo_id`, if any, whoever owns it.
pub open spec fn todo_by_id(todos: Seq<TodoView>, todo_id: i64) -> Option<TodoView> {
    find_by(todos, |t: TodoView| t.id, todo_id)
}

/// What an owner-scoped fetch returns: the todo under `todo_id`,
/// provided `user_id` owns it. A foreign row answers like an absent
/// one.
pub open spec fn owned_todo(todos: Seq<TodoView>, user_id: i64, todo_id: i64) -> Option<TodoView> {
    match todo_by_id(todos, todo_id) {
        Some(t) => if t.user_id == user_id {
            Some(t)
        } else {
            None
        },
        None => None,
    }
}

/// The todos owned by `user_id`, most recently created first.
pub open spec fn todos_of_desc(todos: Seq<TodoView>, user_id: i64) -> Seq<TodoView>
    decreases todos.len(),
{
    if todos.len() == 0 {
        Seq::empty()
    } else if todos.last().user_id == user_id {
        seq![todos.last()] + todos_of_desc(todos.drop_last(), user_id)
    } else {
        todos_of_desc(todos.drop_last(), user_id)
    }
}

/// Owner-scoped lookup answers exactly as index-wise membership does:
/// under id uniqueness it returns the row at any index matching both
/// the id and the owner, and nothing when no index matches both.
pub proof fn lemma_owned_todo_characterization(todos: Seq<TodoView>, user_id: i64, todo_id: i64)
    requires
        unique_by(todos, |t: TodoView| t.id),
    ensures
        forall|i: int|
            0 <= i < todos.len() && todos[i].id == todo_id && todos[i].user_id == user_id
                ==> owned_todo(todos, user_id, todo_id) == Some(todos[i]),
        (forall|i: int|
            0 <= i < todos.len() ==> !(todos[i].id == todo_id && todos[i].user_id == user_id))
            ==> owned_todo(todos, user_id, todo_id) is None,
{
    lemma_find_by_characterization(todos, |t: TodoView| t.id, todo_id);
}

/// How a completed-flag update relates the store's old contents to the
/// new: one row, matching both the id and the owner, is replaced by
/// `t`, which is that row with `completed` set and `updated_at` bumped
/// to `now`; every other row keeps its place.
pub open spec fn completion_updated(
    prev: Seq<TodoView>,
    post: Seq<TodoView>,
    t: TodoView,
    user_id: i64,
    todo_id: i64,
    completed: bool,
    now: u64,
) -> bool {
    exists|i: int|
        {
            &&& 0 <= i < prev.len()
            &&& prev[i].id == todo_id
            &&& prev[i].user_id == user_id
            &&& t == TodoView { completed, updated_at: now, ..prev[i] }
            &&& post == prev.update(i, t)
        }
}

/// CRUD operations on tasks, all scoped by owning user id; owns the
/// todos table.
pub struct TodoStore {
    todos: Vec<Todo>,
    next_id: i64,
}

impl View for TodoStore {
    type V = Seq<TodoView>;

    closed spec fn view(&self) -> Seq<TodoView> {
        self.todos@.map_values(|t: Todo| t@)
    }
}

impl TodoStore {
    /// The primary key the next created todo will receive.
    pub closed spec fn next_todo_id(&self) -> i64 {
        self.next_id
    }

    /// Well-formedness: ids are pairwise distinct and stay below the
    /// id counter.
    pub open spec fn wf(&self) -> bool {
        &&& unique_by(self@, |t: TodoView| t.id)
        &&& forall|i: int| 0 <= i < self@.len() ==> (#[trigger] self@[i]).id < self.next_todo_id()
        &&& 1 <= self.next_todo_id()
    }

    /// An empty store.
    pub fn new() -> (s: Self)
        ensures
            s@ == Seq::<TodoView>::empty(),
            s.wf(),
            s.next_todo_id() == 1,
    {
        let s = TodoStore { todos: Vec::new(), next_id: 1 };
        proof {
            assert(s@ =~= Seq::<TodoView>::empty());
        }
        s
    }

    /// The id counter, readable at run time so a caller can test the
    /// precondition of `create` before calling it.
    pub fn next_id_value(&self) -> (r: i64)
        ensures
            r == self.next_todo_id(),
    {
        self.next_id
    }

    /// Index of the row matching both the id and the owner, by linear
    /// scan; the single atomic ownership filter of every mutation.
    fn index_owned(&self, user_id: i64, todo_id: i64) -> (r: Option<usize>)
        ensures
            match r {
                Some(i) => i < self@.len() && self@[i as int].id == todo_id && self@[
                    i as int
                ].user_id == user_id,
                None => forall|i: int|
                    0 <= i < self@.len() ==> !(self@[i].id == todo_id && self@[i].user_id
                        == user_id),
            },
    {
        let n = self.todos.len();
        let mut i: usize = 0;
        while i < n
            invariant
                i <= n,
                n == self.todos@.len(),
                self@ == self.todos@.map_values(|t: Todo| t@),
                forall|j: int|
                    0 <= j < i ==> !(self@[j].id == todo_id && self@[j].user_id == user_id),
            decreases n - i,
        {
            if self.todos[i].id == todo_id && self.todos[i].user_id == user_id {
                return Some(i);
            }
            i = i + 1;
        }
        None
    }

    /// All todos owned by `user_id`, most recently created first; an
    /// empty list if none.
    pub fn list(&self, user_id: i64) -> (r: Vec<Todo>)
        ensures
            r@.map_values(|t: Todo| t@) == todos_of_desc(self@, user_id),
    {
        let mut out: Vec<Todo> = Vec::new();
        let n = self.todos.len();
        let mut i: usize = 0;
        proof {
            assert(out@.map_values(|t: Todo| t@) =~= todos_of_desc(self@.take(0), user_id));
        }
        while i < n
            invariant
                i <= n,
                n == self.todos@.len(),
                self@ == self.todos@.map_values(|t: Todo| t@),
                out@.map_values(|t: Todo| t@) == todos_of_desc(self@.take(i as int), user_id),
            decreases n - i,
        {
            let ghost prev_out = out@;
            if self.todos[i].user_id == user_id {
                out.insert(0, self.todos[i].clone());
            }
            proof {
                let part = self@.take(i + 1 as int);
                assert(part.last() == self@[i as int]);
                assert(part.drop_last() =~= self@.take(i as int));
                if self@[i as int].user_id == user_id {
                    assert(out@.map_values(|t: Todo| t@) =~= seq![self@[i as int]] + prev_out.map_values(
                        |t: Todo| t@,
                    ));
                } else {
                    assert(out@ == prev_out);
                }
            }
            i = i + 1;
        }
        proof {
            assert(self@.take(n as int) =~= self@);
        }
        out
    }

    /// Fetches one todo, only if `user_id` owns it.
    pub fn get(&self, user_id: i64, todo_id: i64) -> (r: Option<Todo>)
        requires
            self.wf(),
        ensures
            match r {
                Some(t) => owned_todo(self@, user_id, todo_id) == Some(t@),
                None => owned_todo(self@, user_id, todo_id) is None,
            },
    {
        proof {
            lemma_owned_todo_characterization(self@, user_id, todo_id);
        }
        match self.index_owned(user_id, todo_id) {
            None => None,
            Some(i) => {
                proof {
                    assert(self.todos@[i as int]@ == self@[i as int]);
                }
                Some(self.todos[i].clone())
            },
        }
    }

    /// Creates a todo for `user_id`. Rejects a blank title with
    /// `InvalidInput`; otherwise appends a fresh, uncompleted row whose
    /// two timestamps are both `now`.
    pub fn create(&mut self, user_id: i64, todo: &CreateTodo, now: u64) -> (r: Result<
        Todo,
        StoreError,
    >)
        requires
            old(self).wf(),
            old(self).next_todo_id() < i64::MAX,
        ensures
            final(self).wf(),
            is_blank(todo.title@) <==> r == Err::<Todo, StoreError>(StoreError::InvalidInput),
            r matches Err(e) ==> e == StoreError::InvalidInput && final(self)@ == old(self)@
                && final(self).next_todo_id() == old(self).next_todo_id(),
            r matches Ok(t) ==> {
                &&& t@.title == todo.title@
                &&& t@.completed == false
                &&& t@.created_at == now
                &&& t@.updated_at == now
                &&& t@.user_id == user_id
                &&& t@.id == old(self).next_todo_id()
                &&& final(self)@ == old(self)@.push(t@)
                &&& final(self).next_todo_id() == old(self).next_todo_id() + 1
            },
    {
        if check_blank(todo.title.as_str()) {
            return Err(StoreError::InvalidInput);
        }
        let t = Todo {
            id: self.next_id,
            title: todo.title.clone(),
            completed: false,
            created_at: now,
            updated_at: now,
            user_id,
        };
        let created = t.clone();
        let ghost prev = self@;
        self.todos.push(t);
        self.next_id = self.next_id + 1;
        proof {
            assert(self@ =~= prev.push(created@));
        }
        Ok(created)
    }

    /// Sets the completion flag of one todo, only if `user_id` owns
    /// it, bumping `updated_at`; answers the refreshed row, or nothing
    /// (and changes nothing) when no row matches both id and owner.
    pub fn update_completion(&mut self, user_id: i64, todo_id: i64, completed: bool, now: u64) -> (r:
        Option<Todo>)
        requires
            old(self).wf(),
        ensures
            final(self).wf(),
            final(self).next_todo_id() == old(self).next_todo_id(),
            r is None ==> owned_todo(old(self)@, user_id, todo_id) is None && final(self)@ == old(
                self,
            )@,
            r matches Some(t) ==> owned_todo(old(self)@, user_id, todo_id) is Some
                && completion_updated(
                old(self)@,
                final(self)@,
                t@,
                user_id,
                todo_id,
                completed,
                now,
            ) && t@.user_id == user_id,
            r matches Some(t) ==> forall|i: int|
                0 <= i < final(self)@.len() ==> final(self)@[i] == t@ || old(self)@.contains(
                    #[trigger] final(self)@[i],
                ),
    {
        proof {
            lemma_owned_todo_characterization(self@, user_id, todo_id);
        }
        match self.index_owned(user_id, todo_id) {
            None => None,
            Some(i) => {
                let row = &self.todos[i];
                let t = Todo {
                    id: row.id,
                    title: row.title.clone(),
                    completed,
                    created_at: row.created_at,
                    updated_at: now,
                    user_id: row.user_id,
                };
                let updated = t.clone();
                let ghost prev = old(self)@;
                self.todos.set(i, t);
                proof {
                    assert(self@ =~= prev.update(i as int, updated@));
                    assert(updated@ == TodoView { completed, updated_at: now, ..prev[i as int] });
                    assert forall|a: int, b: int|
                        0 <= a < b < self@.len() implies (|t: TodoView| t.id)(self@[a]) != (|t:
                    TodoView| t.id)(self@[b]) by {
                        assert(self@[a].id == prev[a].id);
                        assert(self@[b].id == prev[b].id);
                    }
                    assert(owned_todo(prev, user_id, todo_id) == Some(prev[i as int]));
                    assert(completion_updated(
                        prev,
                        self@,
                        updated@,
                        user_id,
                        todo_id,
                        completed,
                        now,
                    )) by {
                        assert({
                            let j = i as int;
                            &&& 0 <= j < prev.len()
                            &&& prev[j].id == todo_id
                            &&& prev[j].user_id == user_id
                            &&& updated@ == TodoView { completed, updated_at: now, ..prev[j] }
                            &&& self@ == prev.update(j, updated@)
                        });
                    }
                    assert forall|j: int| 0 <= j < self@.len() implies self@[j] == updated@
                        || prev.contains(self@[j]) by {
                        if j != i {
                            assert(self@[j] == prev[j]);
                            assert(prev.contains(prev[j]));
                        }
                    }
                }
                Some(updated)
            },
        }
    }

    /// Deletes one todo, only if `user_id` owns it, reporting whether
    /// a row was removed. Deleting an absent or foreign row reports
    /// `false` and changes nothing.
    pub fn delete(&mut self, user_id: i64, todo_id: i64) -> (r: bool)
        requires
            old(self).wf(),
        ensures
            final(self).wf(),
            final(self).next_todo_id() == old(self).next_todo_id(),
            r == (owned_todo(old(self)@, user_id, todo_id) is Some),
            owned_todo(final(self)@, user_id, todo_id) is None,
            !r ==> final(self)@ == old(self)@,
            r ==> exists|i: int|
                {
                    &&& 0 <= i < old(self)@.len()
                    &&& old(self)@[i].id == todo_id
                    &&& old(self)@[i].user_id == user_id
                    &&& final(self)@ == old(self)@.remove(i)
                },
            forall|id2: i64| id2 != todo_id ==> todo_by_id(final(self)@, id2) == todo_by_id(
                old(self)@,
                id2,
            ),
            forall|i: int|
                0 <= i < final(self)@.len() ==> old(self)@.contains(#[trigger] final(self)@[i]),
    {
        let ghost prev = self@;
        proof {
            lemma_owned_todo_characterization(prev, user_id, todo_id);
        }
        match self.index_owned(user_id, todo_id) {
            None => false,
            Some(i) => {
                self.todos.remove(i);
                proof {
                    assert(self@ =~= prev.remove(i as int));
                    assert forall|a: int, b: int|
                        0 <= a < b < self@.len() implies (|t: TodoView| t.id)(self@[a]) != (|t:
                    TodoView| t.id)(self@[b]) by {
                        assert(self@[a] == if a < i {
                            prev[a]
                        } else {
                            prev[a + 1]
                        });
                        assert(self@[b] == if b < i {
                            prev[b]
                        } else {
                            prev[b + 1]
                        });
                    }
                    assert(self.wf());
                    lemma_owned_todo_characterization(self@, user_id, todo_id);
                    assert forall|j: int| 0 <= j < self@.len() implies !(self@[j].id == todo_id
                        && self@[j].user_id == user_id) by {
                        if j < i {
                            assert(self@[j] == prev[j]);
                        } else {
                            assert(self@[j] == prev[j + 1]);
                        }
                    }
                    assert forall|id2: i64| id2 != todo_id implies todo_by_id(self@, id2)
                        == todo_by_id(prev, id2) by {
                        lemma_find_by_characterization(self@, |t: TodoView| t.id, id2);
                        lemma_find_by_characterization(prev, |t: TodoView| t.id, id2);
                        if exists|j: int| 0 <= j < prev.len() && prev[j].id == id2 {
                            let j = choose|j: int| 0 <= j < prev.len() && prev[j].id == id2;
                            if j < i {
                                assert(self@[j] == prev[j]);
                            } else {
                                assert(j != i);
                                assert(self@[j - 1] == prev[j]);
                            }
                        } else {
                            assert forall|j: int| 0 <= j < self@.len() implies self@[j].id
                                != id2 by {
                                if j < i {
                                    assert(self@[j] == prev[j]);
                                } else {
                                    assert(self@[j] == prev[j + 1]);
                                }
                            }
                        }
                    }
                    assert forall|j: int| 0 <= j < self@.len() implies prev.contains(
                        self@[j],
                    ) by {
                        if j < i {
                            assert(self@[j] == prev[j]);
                            assert(prev.contains(prev[j]));
                        } else {
                            assert(self@[j] == prev[j + 1]);
                            assert(prev.contains(prev[j + 1]));
                        }
                    }
                }
                true
            },
        }
    }
}

/// A newly created todo heads its owner's listing and leaves every
/// other user's listing unchanged.
pub proof fn lemma_create_then_list(todos: Seq<TodoView>, t: TodoView, other: i64)
    requires
        other != t.user_id,
    ensures
        todos_of_desc(todos.push(t), t.user_id) == seq![t] + todos_of_desc(todos, t.user_id),
        todos_of_desc(todos.push(t), other) == todos_of_desc(todos, other),
{
    assert(todos.push(t).drop_last() =~= todos);
    assert(todos.push(t).last() == t);
}

/// Round trip: a newly created todo is returned intact by an
/// owner-scoped fetch under its fresh id.
pub proof fn lemma_create_then_get(todos: Seq<TodoView>, t: TodoView)
    requires
        unique_by(todos.push(t), |x: TodoView| x.id),
    ensures
        owned_todo(todos.push(t), t.user_id, t.id) == Some(t),
{
    lemma_owned_todo_characterization(todos.push(t), t.user_id, t.id);
    assert(todos.push(t)[todos.len() as int] == t);
}

} // verus!
