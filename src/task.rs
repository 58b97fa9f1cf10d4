use vstd::prelude::*;
use vstd::string::*;
use crate::app_error::{AppError, StatusCode};

verus! {

/// A moment in time: seconds and nanoseconds since the Unix epoch, and the
/// UTC offset in seconds that it was written with.
#[derive(Debug, Clone, Copy, PartialEq, Eq, Structural)]
pub struct Timestamp {
    pub secs: i64,
    pub nanos: u32,
    pub offset_secs: i32,
}

/// A stored task.
#[derive(Debug)]
pub struct Task {
    pub id: i32,
    pub title: String,
    pub description: Option<String>,
    pub priority: Option<String>,
    pub completed_at: Option<Timestamp>,
    pub deleted_at: Option<Timestamp>,
    pub user_id: Option<i32>,
    pub is_default: Option<bool>,
}

/// A request body for creating or updating a task; every field may be absent.
#[derive(Debug)]
pub struct TaskRequest {
    pub id: Option<i32>,
    pub priority: Option<String>,
    pub title: Option<String>,
    pub completed_at: Option<Timestamp>,
    pub description: Option<String>,
    pub deleted_at: Option<Timestamp>,
    pub user_id: Option<i32>,
    pub is_default: Option<bool>,
}

/// What a client is shown of a task.
#[derive(Debug)]
pub struct TaskResponse {
    pub id: Option<i32>,
    pub title: String,
    pub description: Option<String>,
    pub priority: Option<String>,
    pub deleted_at: Option<Timestamp>,
    pub user_id: Option<i32>,
}

/// Filters of a task listing: each present one narrows the result.
#[derive(Debug)]
pub struct TaskQueryParams {
    pub title: Option<String>,
    pub priority: Option<String>,
}

/// Options of a deletion: `soft` set to true marks the task deleted instead of removing it.
#[derive(Debug, Clone, Copy, PartialEq, Eq, Structural)]
pub struct DeleteParams {
    pub soft: Option<bool>,
}

/// Whether `needle` occurs in `hay` as a contiguous run of characters.
pub open spec fn is_substring(needle: Seq<char>, hay: Seq<char>) -> bool {
    exists|i: int| 0 <= i && i + needle.len() <= hay.len() && #[trigger] hay.subrange(i, i + needle.len()) == needle
}

/// Whether `needle` occurs in `hay` starting at character `at`.
fn occurs_at(hay: &str, needle: &str, at: usize, hay_len: usize, needle_len: usize) -> (r: bool)
    requires
        hay_len == hay@.len(),
        needle_len == needle@.len(),
        at + needle_len <= hay_len,
    ensures
        r == (hay@.subrange(at as int, at + needle_len) == needle@),
{
    let mut j: usize = 0;
    while j < needle_len
        invariant
            hay_len == hay@.len(),
            needle_len == needle@.len(),
            at + needle_len <= hay_len,
            j <= needle_len,
            forall|k: int| 0 <= k < j ==> hay@[at + k] == needle@[k],
        decreases needle_len - j,
    {
        if hay.get_char(at + j) != needle.get_char(j) {
            assert(hay@.subrange(at as int, at + needle_len)[j as int] != needle@[j as int]);
            return false;
        }
        j = j + 1;
    }
    assert(hay@.subrange(at as int, at + needle_len) =~= needle@);
    true
}

/// Whether `needle` occurs anywhere in `hay`.
pub fn contains_text(hay: &str, needle: &str) -> (r: bool)
    ensures
        r == is_substring(needle@, hay@),
{
    let hay_len = hay.unicode_len();
    let needle_len = needle.unicode_len();
    if needle_len > hay_len {
        return false;
    }
    let last: usize = hay_len - needle_len;
    let mut at: usize = 0;
    loop
        invariant
            hay_len == hay@.len(),
            needle_len == needle@.len(),
            last == hay_len - needle_len,
            at <= last,
            forall|i: int| 0 <= i < at ==> #[trigger] hay@.subrange(i, i + needle_len) != needle@,
        decreases last - at,
    {
        if occurs_at(hay, needle, at, hay_len, needle_len) {
            return true;
        }
        if at == last {
            return false;
        }
        at = at + 1;
    }
}

/// What a client is shown of a stored task.
pub open spec fn response_of(t: Task) -> TaskResponse {
    TaskResponse {
        id: Some(t.id),
        title: t.title,
        description: t.description,
        priority: t.priority,
        deleted_at: t.deleted_at,
        user_id: t.user_id,
    }
}

/// The title filter: an empty one asks for a missing title, which a task
/// never has; any other asks for a title that contains it.
pub open spec fn title_filter_holds(filter: Option<String>, title: String) -> bool {
    match filter {
        None => true,
        Some(f) => f@.len() > 0 && is_substring(f@, title@),
    }
}

/// The priority filter: an empty one asks for a missing priority; any other
/// asks for exactly that priority.
pub open spec fn priority_filter_holds(filter: Option<String>, priority: Option<String>) -> bool {
    match filter {
        None => true,
        Some(f) => if f@.len() == 0 {
            priority is None
        } else {
            priority is Some && priority->0@ == f@
        },
    }
}

/// Whether a listing with filters `q` shows task `t`: it is not deleted and
/// meets every filter given.
pub open spec fn listed(q: TaskQueryParams, t: Task) -> bool {
    &&& t.deleted_at is None
    &&& title_filter_holds(q.title, t.title)
    &&& priority_filter_holds(q.priority, t.priority)
}

pub open spec fn listed_by(q: TaskQueryParams) -> spec_fn(Task) -> bool {
    |t: Task| listed(q, t)
}

/// The listing of `rows` under filters `q`, in storage order.
pub open spec fn listing(rows: Seq<Task>, q: TaskQueryParams) -> Seq<TaskResponse> {
    rows.filter(listed_by(q)).map_values(|t: Task| response_of(t))
}

/// The task that a creation request makes, with its id and owner.
pub open spec fn created_task(id: i32, owner: i32, req: TaskRequest) -> Task {
    Task {
        id,
        title: req.title->0,
        description: req.description,
        priority: req.priority,
        completed_at: None,
        deleted_at: None,
        user_id: Some(owner),
        is_default: None,
    }
}

/// The task that a full update writes: every field from the request, absent ones as absent.
pub open spec fn replacement(id: i32, req: TaskRequest) -> Task {
    Task {
        id,
        title: req.title->0,
        description: req.description,
        priority: req.priority,
        completed_at: req.completed_at,
        deleted_at: req.deleted_at,
        user_id: req.user_id,
        is_default: req.is_default,
    }
}

/// A text field after a partial update: absent leaves it, empty clears it, any other sets it.
pub open spec fn merge_text(current: Option<String>, given: Option<String>) -> Option<String> {
    match given {
        None => current,
        Some(s) => if s@.len() == 0 {
            None
        } else {
            Some(s)
        },
    }
}

pub open spec fn merge_field<T>(current: Option<T>, given: Option<T>) -> Option<T> {
    match given {
        None => current,
        Some(v) => Some(v),
    }
}

/// A task after a partial update: the fields present in the request are merged in.
pub open spec fn merged(t: Task, req: TaskRequest) -> Task {
    Task {
        id: t.id,
        title: match req.title {
            None => t.title,
            Some(s) => s,
        },
        description: merge_text(t.description, req.description),
        priority: merge_text(t.priority, req.priority),
        completed_at: merge_field(t.completed_at, req.completed_at),
        deleted_at: merge_field(t.deleted_at, req.deleted_at),
        user_id: merge_field(t.user_id, req.user_id),
        is_default: merge_field(t.is_default, req.is_default),
    }
}

/// A task marked deleted at `now`.
pub open spec fn soft_deleted(t: Task, now: Timestamp) -> Task {
    Task {
        id: t.id,
        title: t.title,
        description: t.description,
        priority: t.priority,
        completed_at: t.completed_at,
        deleted_at: Some(now),
        user_id: t.user_id,
        is_default: t.is_default,
    }
}

/// Whether stored rows can form a table: ids positive, below `i32::MAX`, and unique.
pub open spec fn task_ids_acceptable(rows: Seq<Task>) -> bool {
    &&& forall|i: int| 0 <= i < rows.len() ==> 0 < #[trigger] rows[i].id < i32::MAX
    &&& forall|i: int, j: int| 0 <= i < rows.len() && 0 <= j < rows.len() && i != j
        ==> #[trigger] rows[i].id != #[trigger] rows[j].id
}

/// Whether some row has id `id`.
pub open spec fn has_id(rows: Seq<Task>, id: i32) -> bool {
    exists|i: int| 0 <= i < rows.len() && #[trigger] rows[i].id == id
}

/// The rows with the one of id `id` removed, if there is one.
pub open spec fn without_id(rows: Seq<Task>, id: i32) -> Seq<Task> {
    if has_id(rows, id) {
        rows.remove(choose|i: int| 0 <= i < rows.len() && #[trigger] rows[i].id == id)
    } else {
        rows
    }
}

fn copy_text(s: &Option<String>) -> (r: Option<String>)
    ensures
        r == *s,
{
    match s {
        Some(t) => Some(t.clone()),
        None => None,
    }
}

fn copy_task(t: &Task) -> (r: Task)
    ensures
        r == *t,
{
    Task {
        id: t.id,
        title: t.title.clone(),
        description: copy_text(&t.description),
        priority: copy_text(&t.priority),
        completed_at: t.completed_at,
        deleted_at: t.deleted_at,
        user_id: t.user_id,
        is_default: t.is_default,
    }
}

fn respond(t: &Task) -> (r: TaskResponse)
    ensures
        r == response_of(*t),
{
    TaskResponse {
        id: Some(t.id),
        title: t.title.clone(),
        description: copy_text(&t.description),
        priority: copy_text(&t.priority),
        deleted_at: t.deleted_at,
        user_id: t.user_id,
    }
}

/// Whether a listing with filters `params` shows `task`.
pub fn matches_query(params: &TaskQueryParams, task: &Task) -> (r: bool)
    ensures
        r == listed(*params, *task),
{
    if task.deleted_at.is_some() {
        return false;
    }
    match &params.title {
        Some(f) => {
            if f.as_str().is_empty() || !contains_text(task.title.as_str(), f.as_str()) {
                return false;
            }
        },
        None => {},
    }
    match &params.priority {
        Some(f) => {
            if f.as_str().is_empty() {
                if task.priority.is_some() {
                    return false;
                }
            } else {
                match &task.priority {
                    Some(p) => {
                        if !p.eq(f) {
                            return false;
                        }
                    },
                    None => {
                        return false;
                    },
                }
            }
        },
        None => {},
    }
    true
}

/// The tasks of the service, in storage order, and the id the next one gets.
pub struct TaskTable {
    pub rows: Vec<Task>,
    pub next_id: i32,
}

impl TaskTable {
    /// Ids are positive, below `next_id`, and unique.
    pub open spec fn wf(&self) -> bool {
        &&& self.next_id >= 1
        &&& forall|i: int| 0 <= i < self.rows@.len() ==> 0 < #[trigger] self.rows@[i].id < self.next_id
        &&& forall|i: int, j: int|
            0 <= i < self.rows@.len() && 0 <= j < self.rows@.len() && i != j
                ==> #[trigger] self.rows@[i].id != #[trigger] self.rows@[j].id
    }

    /// An empty table.
    pub fn new() -> (r: TaskTable)
        ensures
            r.wf(),
            r.rows@.len() == 0,
            r.next_id == 1,
    {
        TaskTable { rows: Vec::new(), next_id: 1 }
    }

    /// A table over stored rows, if their ids are positive, below `i32::MAX`
    /// and unique; the next id follows the largest.
    pub fn from_rows(rows: Vec<Task>) -> (r: Option<TaskTable>)
        ensures
            r is Some <==> task_ids_acceptable(rows@),
            r is Some ==> r->0.wf() && r->0.rows@ == rows@,
    {
        let mut max: i32 = 0;
        let mut i: usize = 0;
        while i < rows.len()
            invariant
                i <= rows@.len(),
                0 <= max < i32::MAX,
                forall|k: int| 0 <= k < i ==> 0 < #[trigger] rows@[k].id <= max,
                forall|a: int, b: int| 0 <= a < i && 0 <= b < i && a != b ==> #[trigger] rows@[a].id != #[trigger] rows@[b].id,
            decreases rows@.len() - i,
        {
            let id = rows[i].id;
            if id <= 0 || id == i32::MAX {
                return None;
            }
            let mut j: usize = 0;
            while j < i
                invariant
                    i < rows@.len(),
                    j <= i,
                    id == rows@[i as int].id,
                    forall|k: int| 0 <= k < j ==> #[trigger] rows@[k].id != id,
                decreases i - j,
            {
                if rows[j].id == id {
                    return None;
                }
                j = j + 1;
            }
            if id > max {
                max = id;
            }
            i = i + 1;
        }
        Some(TaskTable { rows, next_id: max + 1 })
    }

    /// The position of the row with id `id`, if there is one.
    pub fn index_of(&self, id: i32) -> (r: Option<usize>)
        ensures
            r is Some ==> r->0 < self.rows@.len() && self.rows@[r->0 as int].id == id,
            r is None ==> !has_id(self.rows@, id),
    {
        let mut i: usize = 0;
        while i < self.rows.len()
            invariant
                i <= self.rows@.len(),
                forall|k: int| 0 <= k < i ==> self.rows@[k].id != id,
            decreases self.rows@.len() - i,
        {
            if self.rows[i].id == id {
                return Some(i);
            }
            i = i + 1;
        }
        None
    }
}

/// Writing a row with the same id in place of another keeps the table well formed.
proof fn lemma_same_id_update(old: TaskTable, new: TaskTable, i: int, t: Task)
    requires
        old.wf(),
        0 <= i < old.rows@.len(),
        t.id == old.rows@[i].id,
        new.rows@ == old.rows@.update(i, t),
        new.next_id == old.next_id,
    ensures
        new.wf(),
{
    assert forall|a: int, b: int|
        0 <= a < new.rows@.len() && 0 <= b < new.rows@.len() && a != b
            implies #[trigger] new.rows@[a].id != #[trigger] new.rows@[b].id by {
        assert(new.rows@[a].id == old.rows@[a].id);
        assert(new.rows@[b].id == old.rows@[b].id);
    }
    assert forall|a: int| 0 <= a < new.rows@.len() implies 0 < #[trigger] new.rows@[a].id < new.next_id by {
        assert(new.rows@[a].id == old.rows@[a].id);
    }
}

/// Filtering a prefix one element longer adds that element if it passes.
proof fn lemma_filter_step<A>(s: Seq<A>, p: spec_fn(A) -> bool, i: int)
    requires
        0 <= i < s.len(),
    ensures
        s.subrange(0, i + 1).filter(p) == if p(s[i]) {
            s.subrange(0, i).filter(p).push(s[i])
        } else {
            s.subrange(0, i).filter(p)
        },
{
    reveal(Seq::filter);
    assert(s.subrange(0, i + 1).drop_last() =~= s.subrange(0, i));
}

/// Creates a task owned by `owner`; a title is required.
pub fn create_task(table: &mut TaskTable, owner: i32, req: TaskRequest) -> (r: Result<TaskResponse, AppError>)
    requires
        old(table).wf(),
    ensures
        final(table).wf(),
        req.title is None ==> r is Err && r->Err_0.code == StatusCode::BadRequest
            && r->Err_0.message@ == "Title is required."@,
        req.title is Some && old(table).next_id == i32::MAX ==> r is Err
            && r->Err_0.code == StatusCode::InternalServerError,
        r is Err ==> *final(table) == *old(table),
        req.title is Some && old(table).next_id < i32::MAX ==> r is Ok,
        r is Ok ==> {
            let t = created_task(old(table).next_id, owner, req);
            &&& final(table).rows@ == old(table).rows@.push(t)
            &&& final(table).next_id == old(table).next_id + 1
            &&& r->Ok_0 == response_of(t)
        },
{
    let title = match req.title {
        Some(t) => t,
        None => {
            return Err(AppError::new(StatusCode::BadRequest, "Title is required.".to_owned()));
        },
    };
    if table.next_id == i32::MAX {
        return Err(AppError::new(StatusCode::InternalServerError, "No task id is left.".to_owned()));
    }
    let task = Task {
        id: table.next_id,
        title,
        description: req.description,
        priority: req.priority,
        completed_at: None,
        deleted_at: None,
        user_id: Some(owner),
        is_default: None,
    };
    let response = respond(&task);
    table.rows.push(task);
    table.next_id = table.next_id + 1;
    Ok(response)
}

/// The tasks that are not deleted and meet the given filters, in storage order.
pub fn get_all_tasks(table: &TaskTable, params: &TaskQueryParams) -> (r: Vec<TaskResponse>)
    ensures
        r@ == listing(table.rows@, *params),
{
    let ghost rows = table.rows@;
    let ghost p = listed_by(*params);
    let mut out: Vec<TaskResponse> = Vec::new();
    let mut i: usize = 0;
    while i < table.rows.len()
        invariant
            rows == table.rows@,
            p == listed_by(*params),
            i <= rows.len(),
            out@ == rows.subrange(0, i as int).filter(p).map_values(|t: Task| response_of(t)),
        decreases rows.len() - i,
    {
        proof {
            lemma_filter_step(rows, p, i as int);
        }
        if matches_query(params, &table.rows[i]) {
            out.push(respond(&table.rows[i]));
            assert(out@ =~= rows.subrange(0, i + 1).filter(p).map_values(|t: Task| response_of(t)));
        } else {
            assert(out@ =~= rows.subrange(0, i + 1).filter(p).map_values(|t: Task| response_of(t)));
        }
        i = i + 1;
    }
    assert(rows.subrange(0, rows.len() as int) =~= rows);
    out
}

/// The task with id `task_id`, unless it is missing or deleted.
pub fn get_task(table: &TaskTable, task_id: i32) -> (r: Result<TaskResponse, AppError>)
    ensures
        r is Ok <==> exists|i: int| 0 <= i < table.rows@.len() && #[trigger] table.rows@[i].id == task_id
            && table.rows@[i].deleted_at is None,
        r is Ok ==> exists|i: int| 0 <= i < table.rows@.len() && #[trigger] table.rows@[i].id == task_id
            && table.rows@[i].deleted_at is None && r->Ok_0 == response_of(table.rows@[i]),
        r is Err ==> r->Err_0.code == StatusCode::NotFound && r->Err_0.message@.len() == 0,
{
    let mut i: usize = 0;
    while i < table.rows.len()
        invariant
            i <= table.rows@.len(),
            forall|k: int| 0 <= k < i ==> !(#[trigger] table.rows@[k].id == task_id && table.rows@[k].deleted_at is None),
        decreases table.rows@.len() - i,
    {
        if table.rows[i].id == task_id && table.rows[i].deleted_at.is_none() {
            return Ok(respond(&table.rows[i]));
        }
        i = i + 1;
    }
    Err(AppError::new(StatusCode::NotFound, String::new()))
}

/// The task with id `task_id`, whether deleted or not.
pub fn get_task_with_deleted(table: &TaskTable, task_id: i32) -> (r: Result<TaskResponse, AppError>)
    ensures
        r is Ok <==> has_id(table.rows@, task_id),
        r is Ok ==> exists|i: int| 0 <= i < table.rows@.len() && #[trigger] table.rows@[i].id == task_id
            && r->Ok_0 == response_of(table.rows@[i]),
        r is Err ==> r->Err_0.code == StatusCode::NotFound && r->Err_0.message@.len() == 0,
{
    match table.index_of(task_id) {
        Some(i) => Ok(respond(&table.rows[i])),
        None => Err(AppError::new(StatusCode::NotFound, String::new())),
    }
}

fn merge_text_exec(current: Option<String>, given: Option<String>) -> (r: Option<String>)
    ensures
        r == merge_text(current, given),
{
    match given {
        None => current,
        Some(s) => {
            if s.as_str().is_empty() {
                None
            } else {
                Some(s)
            }
        },
    }
}

fn merge_field_exec<T>(current: Option<T>, given: Option<T>) -> (r: Option<T>)
    ensures
        r == merge_field(current, given),
{
    match given {
        None => current,
        Some(v) => Some(v),
    }
}

/// Replaces every field of the task with id `task_id` by the request's,
/// absent ones as absent; a title is required. A missing task is left missing.
pub fn atomic_task_update(table: &mut TaskTable, task_id: i32, req: TaskRequest) -> (r: Result<(), AppError>)
    requires
        old(table).wf(),
    ensures
        final(table).wf(),
        r is Err <==> req.title is None,
        r is Err ==> r->Err_0.code == StatusCode::BadRequest && r->Err_0.message@ == "Title is required."@
            && *final(table) == *old(table),
        final(table).next_id == old(table).next_id,
        r is Ok && !has_id(old(table).rows@, task_id) ==> final(table).rows@ == old(table).rows@,
        r is Ok && has_id(old(table).rows@, task_id) ==> exists|i: int|
            0 <= i < old(table).rows@.len() && #[trigger] old(table).rows@[i].id == task_id
                && final(table).rows@ == old(table).rows@.update(i, replacement(task_id, req)),
{
    if req.title.is_none() {
        return Err(AppError::new(StatusCode::BadRequest, "Title is required.".to_owned()));
    }
    match table.index_of(task_id) {
        Some(i) => {
            let ghost before = *table;
            let ghost spec_req = req;
            let task = Task {
                id: task_id,
                title: match req.title {
                    Some(t) => t,
                    None => String::new(),
                },
                description: req.description,
                priority: req.priority,
                completed_at: req.completed_at,
                deleted_at: req.deleted_at,
                user_id: req.user_id,
                is_default: req.is_default,
            };
            assert(task == replacement(task_id, spec_req));
            table.rows.set(i, task);
            proof {
                lemma_same_id_update(before, *table, i as int, replacement(task_id, spec_req));
            }
            Ok(())
        },
        None => Ok(()),
    }
}

/// Merges the fields present in the request into the task with id
/// `task_id`; an empty description or priority clears that field.
pub fn partial_task_update(table: &mut TaskTable, task_id: i32, req: TaskRequest) -> (r: Result<(), AppError>)
    requires
        old(table).wf(),
    ensures
        final(table).wf(),
        r is Ok <==> has_id(old(table).rows@, task_id),
        r is Err ==> r->Err_0.code == StatusCode::NotFound && r->Err_0.message@.len() == 0
            && *final(table) == *old(table),
        final(table).next_id == old(table).next_id,
        r is Ok ==> exists|i: int|
            0 <= i < old(table).rows@.len() && #[trigger] old(table).rows@[i].id == task_id
                && final(table).rows@ == old(table).rows@.update(i, merged(old(table).rows@[i], req)),
{
    match table.index_of(task_id) {
        Some(i) => {
            let ghost before = *table;
            let ghost spec_req = req;
            let current = copy_task(&table.rows[i]);
            let task = Task {
                id: current.id,
                title: match req.title {
                    Some(t) => t,
                    None => current.title,
                },
                description: merge_text_exec(current.description, req.description),
                priority: merge_text_exec(current.priority, req.priority),
                completed_at: merge_field_exec(current.completed_at, req.completed_at),
                deleted_at: merge_field_exec(current.deleted_at, req.deleted_at),
                user_id: merge_field_exec(current.user_id, req.user_id),
                is_default: merge_field_exec(current.is_default, req.is_default),
            };
            assert(task == merged(before.rows@[i as int], spec_req));
            table.rows.set(i, task);
            proof {
                lemma_same_id_update(before, *table, i as int, merged(before.rows@[i as int], spec_req));
            }
            Ok(())
        },
        None => Err(AppError::new(StatusCode::NotFound, String::new())),
    }
}

/// Deletes the task with id `task_id`. With `soft` set to true it is marked
/// deleted at `now`, and a missing task is not found; otherwise the row is
/// removed if there is one, and a missing one is no error.
pub fn delete_task(table: &mut TaskTable, task_id: i32, params: DeleteParams, now: Timestamp) -> (r: Result<(), AppError>)
    requires
        old(table).wf(),
    ensures
        final(table).wf(),
        final(table).next_id == old(table).next_id,
        params.soft == Some(true) ==> {
            &&& r is Ok <==> has_id(old(table).rows@, task_id)
            &&& r is Err ==> r->Err_0.code == StatusCode::NotFound && r->Err_0.message@.len() == 0
                && *final(table) == *old(table)
            &&& r is Ok ==> exists|i: int|
                0 <= i < old(table).rows@.len() && #[trigger] old(table).rows@[i].id == task_id
                    && final(table).rows@ == old(table).rows@.update(i, soft_deleted(old(table).rows@[i], now))
        },
        params.soft != Some(true) ==> r is Ok && final(table).rows@ == without_id(old(table).rows@, task_id),
{
    let soft = match params.soft {
        Some(b) => b,
        None => false,
    };
    let found = table.index_of(task_id);
    let ghost before = *table;
    if soft {
        match found {
            Some(i) => {
                let current = copy_task(&table.rows[i]);
                let task = Task {
                    id: current.id,
                    title: current.title,
                    description: current.description,
                    priority: current.priority,
                    completed_at: current.completed_at,
                    deleted_at: Some(now),
                    user_id: current.user_id,
                    is_default: current.is_default,
                };
                assert(task == soft_deleted(before.rows@[i as int], now));
                table.rows.set(i, task);
                proof {
                    lemma_same_id_update(before, *table, i as int, soft_deleted(before.rows@[i as int], now));
                }
                Ok(())
            },
            None => Err(AppError::new(StatusCode::NotFound, String::new())),
        }
    } else {
        match found {
            Some(i) => {
                let ghost c = choose|k: int| 0 <= k < before.rows@.len() && #[trigger] before.rows@[k].id == task_id;
                assert(c == i as int);
                table.rows.remove(i);
                assert forall|a: int| 0 <= a < table.rows@.len() implies
                    0 < #[trigger] table.rows@[a].id < table.next_id by {
                    if a < i {
                        assert(table.rows@[a] == before.rows@[a]);
                    } else {
                        assert(table.rows@[a] == before.rows@[a + 1]);
                    }
                }
                assert forall|a: int, b: int|
                    0 <= a < table.rows@.len() && 0 <= b < table.rows@.len() && a != b
                        implies #[trigger] table.rows@[a].id != #[trigger] table.rows@[b].id by {
                    let a0 = if a < i { a } else { a + 1 };
                    let b0 = if b < i { b } else { b + 1 };
                    assert(table.rows@[a] == before.rows@[a0]);
                    assert(table.rows@[b] == before.rows@[b0]);
                }
                Ok(())
            },
            None => Ok(()),
        }
    }
}

/// Every element that a filter keeps comes from the filtered sequence.
proof fn lemma_filter_members<A>(s: Seq<A>, p: spec_fn(A) -> bool)
    ensures
        forall|k: int| 0 <= k < s.filter(p).len() ==> s.contains(#[trigger] s.filter(p)[k]),
    decreases s.len(),
{
    reveal(Seq::filter);
    if s.len() > 0 {
        lemma_filter_members(s.drop_last(), p);
        let sub = s.drop_last().filter(p);
        assert forall|k: int| 0 <= k < s.filter(p).len() implies s.contains(#[trigger] s.filter(p)[k]) by {
            if k < sub.len() {
                assert(s.filter(p)[k] == sub[k]);
                let j = choose|j: int| 0 <= j < s.drop_last().len() && s.drop_last()[j] == sub[k];
                assert(s[j] == sub[k]);
            } else {
                assert(s.filter(p)[k] == s.last());
                assert(s[s.len() - 1] == s.last());
            }
        }
    }
}

/// Once a task is soft-deleted, no listing shows it, whatever its filters.
pub proof fn lemma_soft_deleted_never_listed(table: TaskTable, i: int, now: Timestamp, q: TaskQueryParams)
    requires
        table.wf(),
        0 <= i < table.rows@.len(),
    ensures
        forall|k: int| 0 <= k < listing(table.rows@.update(i, soft_deleted(table.rows@[i], now)), q).len()
            ==> #[trigger] listing(table.rows@.update(i, soft_deleted(table.rows@[i], now)), q)[k].id != Some(table.rows@[i].id),
{
    let rows = table.rows@.update(i, soft_deleted(table.rows@[i], now));
    let p = listed_by(q);
    let kept = rows.filter(p);
    #[allow(deprecated)]
    rows.filter_lemma(p);
    lemma_filter_members(rows, p);
    assert forall|k: int| 0 <= k < listing(rows, q).len() implies #[trigger] listing(rows, q)[k].id != Some(table.rows@[i].id) by {
        assert(listing(rows, q)[k] == response_of(kept[k]));
        assert(p(kept[k]));
        assert(rows.contains(kept[k]));
        let j = choose|j: int| 0 <= j < rows.len() && rows[j] == kept[k];
        if j != i {
            assert(rows[j] == table.rows@[j]);
        }
    }
}

/// A partial update's description and priority: an empty value clears the
/// field, another value sets it, and an absent one leaves it as it was.
pub proof fn lemma_partial_update_sentinel(t: Task, req: TaskRequest)
    ensures
        req.description is Some && req.description->0@.len() == 0 ==> merged(t, req).description is None,
        req.description is Some && req.description->0@.len() > 0 ==> merged(t, req).description == req.description,
        req.description is None ==> merged(t, req).description == t.description,
        req.priority is Some && req.priority->0@.len() == 0 ==> merged(t, req).priority is None,
        req.priority is Some && req.priority->0@.len() > 0 ==> merged(t, req).priority == req.priority,
        req.priority is None ==> merged(t, req).priority == t.priority,
{
}

/// A soft-deleted task is no longer found by the ordinary lookup, yet stays
/// stored and found by the lookup that includes deleted tasks.
pub proof fn lemma_soft_delete_keeps_row(table: TaskTable, i: int, now: Timestamp)
    requires
        table.wf(),
        0 <= i < table.rows@.len(),
    ensures
        ({
            let rows = table.rows@.update(i, soft_deleted(table.rows@[i], now));
            &&& has_id(rows, table.rows@[i].id)
            &&& !exists|k: int| 0 <= k < rows.len() && #[trigger] rows[k].id == table.rows@[i].id
                && rows[k].deleted_at is None
        }),
{
    let rows = table.rows@.update(i, soft_deleted(table.rows@[i], now));
    assert(rows[i].id == table.rows@[i].id);
    assert forall|k: int| 0 <= k < rows.len() && #[trigger] rows[k].id == table.rows@[i].id
        implies rows[k].deleted_at is Some by {
        if k != i {
            assert(rows[k] == table.rows@[k]);
        }
    }
}

/// A hard delete leaves no row with the id, so a second one changes nothing.
pub proof fn lemma_hard_delete_idempotent(table: TaskTable, id: i32)
    requires
        table.wf(),
    ensures
        !has_id(without_id(table.rows@, id), id),
        without_id(without_id(table.rows@, id), id) == without_id(table.rows@, id),
{
    let rows = table.rows@;
    if has_id(rows, id) {
        let c = choose|k: int| 0 <= k < rows.len() && #[trigger] rows[k].id == id;
        let after = rows.remove(c);
        assert forall|a: int| 0 <= a < after.len() implies #[trigger] after[a].id != id by {
            if a < c {
                assert(after[a] == rows[a]);
            } else {
                assert(after[a] == rows[a + 1]);
            }
        }
    }
}

} // verus!
