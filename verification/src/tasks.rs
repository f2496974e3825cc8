//! Tasks of a project: one markdown file each, its state kept in the
//! frontmatter.

use vstd::prelude::*;
use crate::clock::{
    add_days, add_months, date_ok, date_plus_days, date_plus_months, is_date, text_view,
};
use crate::frontmatter::{
    fails_with, frame_of, frontmatter_fields, get_string_seq, parse_frontmatter,
    restamped_fields, serialize_frontmatter, strings_at, writes, Unwritable,
};
use crate::locks::views_of;
use crate::notes::text_or_else;
use crate::search::{file_stem_of, stem_of};
use crate::text::{cat2, cat3, cat4, cat5, descending, str_eq};
use crate::yaml::{
    as_items, fields_of, flag_at, get_flag, get_natural, get_text, natural_at, new_mapping,
    no_fields, remove_key, set_flag, set_list, set_natural, set_text, text_at,
    Field,
};

verus! {

/// A task as shown in listings.
#[derive(Debug, Clone)]
pub struct Task {
    pub id: String,
    pub title: String,
    pub completed: bool,
    pub section: String,
    pub priority: Option<String>,
    pub due_date: Option<String>,
    pub is_active: bool,
    pub tags: Vec<String>,
    pub parent_id: Option<String>,
    pub recurrence: Option<String>,
    pub recurrence_interval: Option<u32>,
    pub project_id: String,
    pub path: String,
    pub created: String,
    pub updated: String,
}

/// A task with the text of its file.
#[derive(Debug, Clone)]
pub struct TaskWithContent {
    pub id: String,
    pub title: String,
    pub completed: bool,
    pub section: String,
    pub priority: Option<String>,
    pub due_date: Option<String>,
    pub is_active: bool,
    pub tags: Vec<String>,
    pub parent_id: Option<String>,
    pub recurrence: Option<String>,
    pub recurrence_interval: Option<u32>,
    pub project_id: String,
    pub path: String,
    pub created: String,
    pub updated: String,
    pub content: String,
}

/// Request to create a task.
#[derive(Debug, Clone)]
pub struct CreateTaskRequest {
    pub title: String,
    pub section: Option<String>,
    pub parent_id: Option<String>,
}

/// Request to change a task's metadata. A field left out stays as it is.
#[derive(Debug, Clone)]
pub struct UpdateTaskMetaRequest {
    pub title: Option<String>,
    pub section: Option<String>,
    pub priority: Option<String>,
    pub due_date: Option<String>,
    pub is_active: Option<bool>,
    pub tags: Option<Vec<String>>,
    pub recurrence: Option<String>,
    pub recurrence_interval: Option<u32>,
}

/// Mathematical value of a [`Task`].
pub struct TaskView {
    pub id: Seq<char>,
    pub title: Seq<char>,
    pub completed: bool,
    pub section: Seq<char>,
    pub priority: Option<Seq<char>>,
    pub due_date: Option<Seq<char>>,
    pub is_active: bool,
    pub tags: Seq<Seq<char>>,
    pub parent_id: Option<Seq<char>>,
    pub recurrence: Option<Seq<char>>,
    pub recurrence_interval: Option<u32>,
    pub project_id: Seq<char>,
    pub path: Seq<char>,
    pub created: Seq<char>,
    pub updated: Seq<char>,
}

impl View for Task {
    type V = TaskView;

    open spec fn view(&self) -> TaskView {
        TaskView {
            id: self.id@,
            title: self.title@,
            completed: self.completed,
            section: self.section@,
            priority: text_view(self.priority),
            due_date: text_view(self.due_date),
            is_active: self.is_active,
            tags: views_of(self.tags@),
            parent_id: text_view(self.parent_id),
            recurrence: text_view(self.recurrence),
            recurrence_interval: self.recurrence_interval,
            project_id: self.project_id@,
            path: self.path@,
            created: self.created@,
            updated: self.updated@,
        }
    }
}

impl TaskWithContent {
    /// The task without the text of its file.
    pub open spec fn summary(self) -> TaskView {
        TaskView {
            id: self.id@,
            title: self.title@,
            completed: self.completed,
            section: self.section@,
            priority: text_view(self.priority),
            due_date: text_view(self.due_date),
            is_active: self.is_active,
            tags: views_of(self.tags@),
            parent_id: text_view(self.parent_id),
            recurrence: text_view(self.recurrence),
            recurrence_interval: self.recurrence_interval,
            project_id: self.project_id@,
            path: self.path@,
            created: self.created@,
            updated: self.updated@,
        }
    }
}

/// The value of a boolean field, or `fallback`.
pub open spec fn flag_or(fields: Map<Seq<char>, Field>, key: Seq<char>, fallback: bool) -> bool {
    match flag_at(fields, key) {
        Some(b) => b,
        None => fallback,
    }
}

/// The path of a task's file relative to the document root.
pub open spec fn task_path(project_id: Seq<char>, stem: Seq<char>) -> Seq<char> {
    "projects/"@ + project_id + "/tasks/"@ + stem + ".md"@
}

/// The stem of a path's file name, or nothing.
pub open spec fn stem_or_empty(path: Seq<char>) -> Seq<char> {
    match stem_of(path) {
        Some(s) => s,
        None => Seq::empty(),
    }
}

/// The task that frontmatter with these fields describes, in the file at
/// `path` of the project `project_id`.
pub open spec fn task_of(fields: Map<Seq<char>, Field>, path: Seq<char>, project_id: Seq<char>) -> TaskView {
    TaskView {
        id: text_or_else(fields, "id"@, stem_or_empty(path)),
        title: text_or_else(fields, "title"@, "Untitled"@),
        completed: flag_or(fields, "completed"@, false),
        section: text_or_else(fields, "section"@, "Active"@),
        priority: text_at(fields, "priority"@),
        due_date: text_at(fields, "due_date"@),
        is_active: flag_or(fields, "is_active"@, true),
        tags: strings_at(fields, "tags"@),
        parent_id: text_at(fields, "parent_id"@),
        recurrence: text_at(fields, "recurrence"@),
        recurrence_interval: match natural_at(fields, "recurrence_interval"@) {
            Some(n) => Some(n as u32),
            None => None,
        },
        project_id,
        path: task_path(project_id, stem_or_empty(path)),
        created: text_or_else(fields, "created"@, Seq::empty()),
        updated: text_or_else(fields, "updated"@, Seq::empty()),
    }
}

fn text_field_or(fm: &serde_yaml::Mapping, key: &str, fallback: &str) -> (r: String)
    ensures
        r@ == text_or_else(fields_of(*fm), key@, fallback@),
{
    match get_text(fm, key) {
        Some(s) => s,
        None => fallback.to_owned(),
    }
}

fn flag_field_or(fm: &serde_yaml::Mapping, key: &str, fallback: bool) -> (r: bool)
    ensures
        r == flag_or(fields_of(*fm), key@, fallback),
{
    match get_flag(fm, key) {
        Some(b) => b,
        None => fallback,
    }
}

/// Reads a task from its frontmatter.
pub fn extract_task_fields(fm: &serde_yaml::Mapping, path: &str, project_id: &str) -> (task: Task)
    ensures
        task@ == task_of(fields_of(*fm), path@, project_id@),
{
    let stem = match file_stem_of(path) {
        Some(s) => s,
        None => String::new(),
    };
    let recurrence_interval = match get_natural(fm, "recurrence_interval") {
        Some(n) => Some(#[verifier::truncate] (n as u32)),
        None => None,
    };
    let task = Task {
        id: text_field_or(fm, "id", stem.as_str()),
        title: text_field_or(fm, "title", "Untitled"),
        completed: flag_field_or(fm, "completed", false),
        section: text_field_or(fm, "section", "Active"),
        priority: get_text(fm, "priority"),
        due_date: get_text(fm, "due_date"),
        is_active: flag_field_or(fm, "is_active", true),
        tags: get_string_seq(fm, "tags"),
        parent_id: get_text(fm, "parent_id"),
        recurrence: get_text(fm, "recurrence"),
        recurrence_interval,
        project_id: project_id.to_owned(),
        path: cat5("projects/", project_id, "/tasks/", stem.as_str(), ".md"),
        created: text_field_or(fm, "created", ""),
        updated: text_field_or(fm, "updated", ""),
    };
    proof {
        crate::text::lemma_empty_literal();
    }
    task
}

/// Reads a task from the text of its file.
pub fn parse_task_file(content: &str, path: &str, project_id: &str) -> (r: Option<Task>)
    ensures
        r matches Some(task) && task@ == task_of(frontmatter_fields(content@), path@, project_id@),
{
    let (fm, _body, _has) = parse_frontmatter(content);
    Some(extract_task_fields(&fm, path, project_id))
}

fn with_content(task: Task, body: &str) -> (r: TaskWithContent)
    ensures
        r.summary() == task@,
        r.content@ == body@,
{
    TaskWithContent {
        id: task.id,
        title: task.title,
        completed: task.completed,
        section: task.section,
        priority: task.priority,
        due_date: task.due_date,
        is_active: task.is_active,
        tags: task.tags,
        parent_id: task.parent_id,
        recurrence: task.recurrence,
        recurrence_interval: task.recurrence_interval,
        project_id: task.project_id,
        path: task.path,
        created: task.created,
        updated: task.updated,
        content: body.to_owned(),
    }
}

/// Reads a task from its frontmatter and keeps the given text with it.
pub fn parse_task_with_content(fm: &serde_yaml::Mapping, body: &str, path: &str, project_id: &str) -> (r:
    Result<TaskWithContent, String>)
    ensures
        r matches Ok(task) && task.summary() == task_of(fields_of(*fm), path@, project_id@)
            && task.content@ == body@,
{
    Ok(with_content(extract_task_fields(fm, path, project_id), body))
}

/// Reads a task with the body of its file from the file's text.
pub fn read_task_with_content(content: &str, path: &str, project_id: &str) -> (r: Result<
    TaskWithContent,
    String,
>)
    ensures
        r matches Ok(task) && task.summary() == task_of(
            frontmatter_fields(content@),
            path@,
            project_id@,
        ) && task.content@ == frame_of(content@).body,
{
    let (fm, body, _has) = parse_frontmatter(content);
    parse_task_with_content(&fm, body.as_str(), path, project_id)
}

/// Returns the directory that holds the tasks of a project.
pub fn get_tasks_dir(data_dir: &str, project_id: &str) -> (dir: String)
    ensures
        dir@ == data_dir@ + "/projects/"@ + project_id@ + "/tasks"@,
{
    cat4(data_dir, "/projects/", project_id, "/tasks")
}

/// Tells whether the file with this text holds the task `task_id`: its
/// frontmatter names that identifier.
pub fn holds_task(content: &str, task_id: &str) -> (r: bool)
    ensures
        r == (text_at(frontmatter_fields(content@), "id"@) == Some(task_id@)),
{
    let (fm, _body, _has) = parse_frontmatter(content);
    match get_text(&fm, "id") {
        Some(id) => str_eq(id.as_str(), task_id),
        None => false,
    }
}

/// The name that a task created at the time with compact text `stamp`
/// gets; a task that continues a recurring one is marked with `-r`.
pub open spec fn task_file_stem(stamp: Seq<char>, recurring: bool) -> Seq<char> {
    if recurring {
        "task-"@ + stamp + "-r"@
    } else {
        "task-"@ + stamp
    }
}

/// The fields of a new task.
pub open spec fn new_task_fields(
    project_id: Seq<char>,
    stem: Seq<char>,
    title: Seq<char>,
    section: Seq<char>,
    parent_id: Option<Seq<char>>,
    now: Seq<char>,
) -> Map<Seq<char>, Field> {
    let base = no_fields().insert("id"@, Field::Text(project_id + "-"@ + stem)).insert(
        "type"@,
        Field::Text("task"@),
    ).insert("title"@, Field::Text(title)).insert("completed"@, Field::Flag(false)).insert(
        "section"@,
        Field::Text(section),
    ).insert("priority"@, Field::Text("normal"@)).insert("is_active"@, Field::Flag(true)).insert(
        "project_id"@,
        Field::Text(project_id),
    );
    let with_parent = match parent_id {
        Some(p) => base.insert("parent_id"@, Field::Text(p)),
        None => base,
    };
    with_parent.insert("created"@, Field::Text(now)).insert("updated"@, Field::Text(now))
}

/// The section a new task goes to: the one given, or `Active`.
pub open spec fn section_or_active(section: Option<&str>) -> Seq<char> {
    match section {
        Some(s) => s@,
        None => "Active"@,
    }
}

/// The view of an optional string slice.
pub open spec fn slice_view(s: Option<&str>) -> Option<Seq<char>> {
    match s {
        Some(t) => Some(t@),
        None => None,
    }
}

/// The body that a task titled `title` starts with.
pub open spec fn task_body(title: Seq<char>) -> Seq<char> {
    "# "@ + title + "\n\n"@
}

/// What creating a task yields: the stem of its file name, the text to
/// write, the frontmatter and the task.
pub struct NewTask {
    pub stem: String,
    pub text: String,
    pub frontmatter: serde_yaml::Mapping,
    pub task: TaskWithContent,
}

/// Creates a task in the project at the time with compact text `stamp` and
/// full text `now`. Fails exactly when the task's frontmatter has no YAML
/// text, and then hands that frontmatter back with the reason.
pub fn create_task_at(
    project_id: &str,
    title: &str,
    section: Option<&str>,
    parent_id: Option<&str>,
    stamp: &str,
    now: &str,
) -> (r: Result<NewTask, Unwritable>)
    ensures
        match r {
            Ok(made) => {
                &&& made.stem@ == task_file_stem(stamp@, false)
                &&& writes(
                    made.frontmatter,
                    new_task_fields(
                        project_id@,
                        task_file_stem(stamp@, false),
                        title@,
                        section_or_active(section),
                        slice_view(parent_id),
                        now@,
                    ),
                    task_body(title@),
                    made.text@,
                )
                &&& made.task.id@ == project_id@ + "-"@ + made.stem@
                &&& made.task.title@ == title@
                &&& !made.task.completed
                &&& made.task.section@ == section_or_active(section)
                &&& text_view(made.task.priority) == Some("normal"@)
                &&& made.task.due_date is None
                &&& made.task.is_active
                &&& made.task.tags@.len() == 0
                &&& text_view(made.task.parent_id) == slice_view(parent_id)
                &&& made.task.recurrence is None
                &&& made.task.recurrence_interval is None
                &&& made.task.project_id@ == project_id@
                &&& made.task.path@ == task_path(project_id@, made.stem@)
                &&& made.task.created@ == now@
                &&& made.task.updated@ == now@
                &&& made.task.content@ == task_body(title@)
            },
            Err(e) => fails_with(
                e,
                new_task_fields(
                    project_id@,
                    task_file_stem(stamp@, false),
                    title@,
                    section_or_active(section),
                    slice_view(parent_id),
                    now@,
                ),
                task_body(title@),
            ),
        },
{
    let stem = cat2("task-", stamp);
    let sec = match section {
        Some(s) => s,
        None => "Active",
    };
    let id = cat3(project_id, "-", stem.as_str());
    let mut fm = new_mapping();
    set_text(&mut fm, "id", id.as_str());
    set_text(&mut fm, "type", "task");
    set_text(&mut fm, "title", title);
    set_flag(&mut fm, "completed", false);
    set_text(&mut fm, "section", sec);
    set_text(&mut fm, "priority", "normal");
    set_flag(&mut fm, "is_active", true);
    set_text(&mut fm, "project_id", project_id);
    match parent_id {
        Some(p) => set_text(&mut fm, "parent_id", p),
        None => {},
    }
    set_text(&mut fm, "created", now);
    set_text(&mut fm, "updated", now);
    let body = cat3("# ", title, "\n\n");
    match serialize_frontmatter(&fm, body.as_str()) {
        Ok(text) => {
            proof {
                lemma_body_keeps_its_start(title@);
            }
            let task = TaskWithContent {
                id,
                title: title.to_owned(),
                completed: false,
                section: sec.to_owned(),
                priority: Some("normal".to_owned()),
                due_date: None,
                is_active: true,
                tags: Vec::new(),
                parent_id: match parent_id {
                    Some(p) => Some(p.to_owned()),
                    None => None,
                },
                recurrence: None,
                recurrence_interval: None,
                project_id: project_id.to_owned(),
                path: cat5("projects/", project_id, "/tasks/", stem.as_str(), ".md"),
                created: now.to_owned(),
                updated: now.to_owned(),
                content: body,
            };
            Ok(NewTask { stem, text, frontmatter: fm, task })
        },
        Err(detail) => Err(Unwritable { frontmatter: fm, detail }),
    }
}

/// A body that starts with `#` has no leading white space to lose.
pub proof fn lemma_body_keeps_its_start(title: Seq<char>)
    ensures
        crate::text::trim_start(task_body(title)) == task_body(title),
{
    reveal_strlit("# ");
    assert(task_body(title)[0] == '#');
    assert(!crate::text::is_space('#')) by {
        assert('#' as u32 == 0x23);
    }
}

/// Replaces the body of a task at the time with text `stamp`: returns the
/// text to write, the frontmatter as written, and the task as it then
/// reads. Fails exactly when the frontmatter has no YAML text, and then
/// hands that frontmatter back with the reason.
pub fn update_task_content_at(
    content: &str,
    new_body: &str,
    path: &str,
    project_id: &str,
    stamp: &str,
) -> (r: Result<(String, serde_yaml::Mapping, TaskWithContent), Unwritable>)
    ensures
        match r {
            Ok((text, fm, task)) => {
                &&& writes(fm, restamped_fields(content@, stamp@), new_body@, text@)
                &&& task.summary() == task_of(
                    restamped_fields(content@, stamp@),
                    path@,
                    project_id@,
                )
                &&& task.content@ == new_body@
            },
            Err(e) => fails_with(e, restamped_fields(content@, stamp@), new_body@),
        },
{
    let (mut fm, _body, _has) = parse_frontmatter(content);
    set_text(&mut fm, "updated", stamp);
    match serialize_frontmatter(&fm, new_body) {
        Ok(text) => {
            let task = with_content(extract_task_fields(&fm, path, project_id), new_body);
            Ok((text, fm, task))
        },
        Err(detail) => Err(Unwritable { frontmatter: fm, detail }),
    }
}

/// The fields of a task after its completion is toggled at the time with
/// text `stamp`: completed tasks go to the section `Completed`, reopened
/// ones to `Active`.
pub open spec fn toggled_fields(fields: Map<Seq<char>, Field>, stamp: Seq<char>) -> Map<
    Seq<char>,
    Field,
> {
    let done = !flag_or(fields, "completed"@, false);
    fields.insert("completed"@, Field::Flag(done)).insert(
        "section"@,
        Field::Text(if done { "Completed"@ } else { "Active"@ }),
    ).insert("updated"@, Field::Text(stamp))
}

/// What it takes to continue a recurring task that was just completed.
#[derive(Debug, Clone)]
pub struct Recurrence {
    pub rule: String,
    pub interval: u64,
    pub title: String,
    pub due_date: Option<String>,
    pub tags: Vec<String>,
}

/// The continuation of a task with these fields, if it recurs: its rule,
/// its interval, 1 where none is given, and what the next task takes
/// over.
pub open spec fn recurrence_of(fields: Map<Seq<char>, Field>) -> Option<
    (Seq<char>, u64, Seq<char>, Option<Seq<char>>, Seq<Seq<char>>),
> {
    match text_at(fields, "recurrence"@) {
        Some(rule) => Some(
            (
                rule,
                match natural_at(fields, "recurrence_interval"@) {
                    Some(n) => n,
                    None => 1u64,
                },
                text_or_else(fields, "title"@, "Untitled"@),
                text_at(fields, "due_date"@),
                strings_at(fields, "tags"@),
            ),
        ),
        None => None,
    }
}

/// The view of an optional continuation.
pub open spec fn recurrence_view(r: Option<Recurrence>) -> Option<
    (Seq<char>, u64, Seq<char>, Option<Seq<char>>, Seq<Seq<char>>),
> {
    match r {
        Some(rec) => Some(
            (rec.rule@, rec.interval, rec.title@, text_view(rec.due_date), views_of(rec.tags@)),
        ),
        None => None,
    }
}

/// Toggles the completion of a task at the time with text `stamp`. Returns
/// the text to write, the frontmatter as written, and, where a recurring
/// task was completed, what its continuation takes. Fails exactly when the
/// frontmatter has no YAML text, and then hands that frontmatter back with
/// the reason.
pub fn toggle_task_at(content: &str, stamp: &str) -> (r: Result<
    (String, serde_yaml::Mapping, Option<Recurrence>),
    Unwritable,
>)
    ensures
        match r {
            Ok((text, fm, next)) => {
                let fields = toggled_fields(frontmatter_fields(content@), stamp@);
                &&& writes(fm, fields, frame_of(content@).body, text@)
                &&& recurrence_view(next) == (if flag_or(fields, "completed"@, false) {
                    recurrence_of(fields)
                } else {
                    None
                })
            },
            Err(e) => fails_with(
                e,
                toggled_fields(frontmatter_fields(content@), stamp@),
                frame_of(content@).body,
            ),
        },
{
    let (mut fm, body, _has) = parse_frontmatter(content);
    let done = !flag_field_or(&fm, "completed", false);
    set_flag(&mut fm, "completed", done);
    set_text(&mut fm, "section", if done { "Completed" } else { "Active" });
    set_text(&mut fm, "updated", stamp);
    let text = match serialize_frontmatter(&fm, body.as_str()) {
        Ok(text) => text,
        Err(detail) => {
            return Err(Unwritable { frontmatter: fm, detail });
        },
    };
    proof {
        lemma_toggled_flag(frontmatter_fields(content@), stamp@);
    }
    let next = if done {
        match get_text(&fm, "recurrence") {
            Some(rule) => Some(
                Recurrence {
                    rule,
                    interval: match get_natural(&fm, "recurrence_interval") {
                        Some(n) => n,
                        None => 1,
                    },
                    title: text_field_or(&fm, "title", "Untitled"),
                    due_date: get_text(&fm, "due_date"),
                    tags: get_string_seq(&fm, "tags"),
                },
            ),
            None => None,
        }
    } else {
        None
    };
    Ok((text, fm, next))
}

/// After a toggle the `completed` field holds the new state.
pub proof fn lemma_toggled_flag(fields: Map<Seq<char>, Field>, stamp: Seq<char>)
    ensures
        flag_or(toggled_fields(fields, stamp), "completed"@, false) == !flag_or(
            fields,
            "completed"@,
            false,
        ),
{
    reveal_strlit("completed");
    reveal_strlit("section");
    reveal_strlit("updated");
    assert("completed"@.len() == 9 && "section"@.len() == 7 && "updated"@.len() == 7);
}

/// The day on which a recurring task is next due: `interval` days, weeks,
/// months or years after the day it was due, or after `today` where it had
/// no valid due day. `None` for an unknown rule or a day out of range.
pub open spec fn next_due(current_due: Option<Seq<char>>, rule: Seq<char>, interval: u64, today: Seq<char>) -> Option<
    Seq<char>,
> {
    let base = match current_due {
        Some(d) => if date_ok(d) {
            d
        } else {
            today
        },
        None => today,
    };
    if rule == "daily"@ {
        if interval <= i64::MAX {
            date_plus_days(base, interval as int)
        } else {
            None
        }
    } else if rule == "weekly"@ {
        if interval * 7 <= i64::MAX {
            date_plus_days(base, interval * 7)
        } else {
            None
        }
    } else if rule == "monthly"@ {
        if interval <= u32::MAX {
            date_plus_months(base, interval as int)
        } else {
            None
        }
    } else if rule == "yearly"@ {
        if interval * 12 <= u32::MAX {
            date_plus_months(base, interval * 12)
        } else {
            None
        }
    } else {
        None
    }
}

/// Computes the day on which a recurring task is next due.
pub fn calculate_next_due_date(current_due: Option<&str>, rule: &str, interval: u64, today: &str) -> (r:
    Option<String>)
    ensures
        text_view(r) == next_due(
            match current_due {
                Some(d) => Some(d@),
                None => None,
            },
            rule@,
            interval,
            today@,
        ),
{
    let base = match current_due {
        Some(d) => if is_date(d) {
            d
        } else {
            today
        },
        None => today,
    };
    if str_eq(rule, "daily") {
        if interval <= 0x7fff_ffff_ffff_ffff {
            add_days(base, interval as i64)
        } else {
            None
        }
    } else if str_eq(rule, "weekly") {
        if interval <= 0x7fff_ffff_ffff_ffff / 7 {
            add_days(base, (interval * 7) as i64)
        } else {
            None
        }
    } else if str_eq(rule, "monthly") {
        if interval <= 0xffff_ffff {
            add_months(base, interval as u32)
        } else {
            None
        }
    } else if str_eq(rule, "yearly") {
        if interval <= 0xffff_ffff / 12 {
            add_months(base, (interval * 12) as u32)
        } else {
            None
        }
    } else {
        None
    }
}

/// The fields of the task that continues a recurring one.
pub open spec fn recurring_task_fields(
    project_id: Seq<char>,
    stem: Seq<char>,
    title: Seq<char>,
    due_date: Option<Seq<char>>,
    rule: Seq<char>,
    interval: u32,
    tags: Seq<Seq<char>>,
    now: Seq<char>,
) -> Map<Seq<char>, Field> {
    let base = no_fields().insert("id"@, Field::Text(project_id + "-"@ + stem)).insert(
        "type"@,
        Field::Text("task"@),
    ).insert("title"@, Field::Text(title)).insert("completed"@, Field::Flag(false)).insert(
        "section"@,
        Field::Text("Active"@),
    ).insert("priority"@, Field::Text("normal"@)).insert("is_active"@, Field::Flag(true)).insert(
        "project_id"@,
        Field::Text(project_id),
    ).insert("recurrence"@, Field::Text(rule)).insert(
        "recurrence_interval"@,
        Field::Natural(interval as u64),
    );
    let with_due = match due_date {
        Some(d) => base.insert("due_date"@, Field::Text(d)),
        None => base,
    };
    let with_tags = if tags.len() > 0 {
        with_due.insert("tags"@, Field::List(as_items(tags)))
    } else {
        with_due
    };
    with_tags.insert("created"@, Field::Text(now)).insert("updated"@, Field::Text(now))
}

/// Creates the task that continues a recurring one, at the time with
/// compact text `stamp` and full text `now`. Fails exactly when the task's
/// frontmatter has no YAML text, and then hands that frontmatter back with
/// the reason.
pub fn create_recurring_task_at(
    project_id: &str,
    title: &str,
    due_date: Option<&str>,
    rule: &str,
    interval: u32,
    tags: &Vec<String>,
    stamp: &str,
    now: &str,
) -> (r: Result<NewTask, Unwritable>)
    ensures
        match r {
            Ok(made) => {
                &&& made.stem@ == task_file_stem(stamp@, true)
                &&& writes(
                    made.frontmatter,
                    recurring_task_fields(
                        project_id@,
                        task_file_stem(stamp@, true),
                        title@,
                        slice_view(due_date),
                        rule@,
                        interval,
                        views_of(tags@),
                        now@,
                    ),
                    task_body(title@),
                    made.text@,
                )
                &&& made.task.id@ == project_id@ + "-"@ + made.stem@
                &&& made.task.title@ == title@
                &&& !made.task.completed
                &&& made.task.section@ == "Active"@
                &&& text_view(made.task.priority) == Some("normal"@)
                &&& text_view(made.task.due_date) == slice_view(due_date)
                &&& made.task.is_active
                &&& views_of(made.task.tags@) == views_of(tags@)
                &&& made.task.parent_id is None
                &&& text_view(made.task.recurrence) == Some(rule@)
                &&& made.task.recurrence_interval == Some(interval)
                &&& made.task.project_id@ == project_id@
                &&& made.task.path@ == task_path(project_id@, made.stem@)
                &&& made.task.created@ == now@
                &&& made.task.updated@ == now@
                &&& made.task.content@ == task_body(title@)
            },
            Err(e) => fails_with(
                e,
                recurring_task_fields(
                    project_id@,
                    task_file_stem(stamp@, true),
                    title@,
                    slice_view(due_date),
                    rule@,
                    interval,
                    views_of(tags@),
                    now@,
                ),
                task_body(title@),
            ),
        },
{
    let stem = cat3("task-", stamp, "-r");
    let id = cat3(project_id, "-", stem.as_str());
    let mut fm = new_mapping();
    set_text(&mut fm, "id", id.as_str());
    set_text(&mut fm, "type", "task");
    set_text(&mut fm, "title", title);
    set_flag(&mut fm, "completed", false);
    set_text(&mut fm, "section", "Active");
    set_text(&mut fm, "priority", "normal");
    set_flag(&mut fm, "is_active", true);
    set_text(&mut fm, "project_id", project_id);
    set_text(&mut fm, "recurrence", rule);
    set_natural(&mut fm, "recurrence_interval", interval as u64);
    match due_date {
        Some(d) => set_text(&mut fm, "due_date", d),
        None => {},
    }
    if tags.len() > 0 {
        set_list(&mut fm, "tags", tags);
    }
    set_text(&mut fm, "created", now);
    set_text(&mut fm, "updated", now);
    let body = cat3("# ", title, "\n\n");
    match serialize_frontmatter(&fm, body.as_str()) {
        Ok(text) => {
            let mut own_tags: Vec<String> = Vec::new();
            let mut i: usize = 0;
            while i < tags.len()
                invariant
                    i <= tags.len(),
                    own_tags.len() == i,
                    forall|j: int| 0 <= j < i ==> own_tags@[j]@ == tags@[j]@,
                decreases tags.len() - i,
            {
                own_tags.push(tags[i].clone());
                i += 1;
            }
            assert(views_of(own_tags@) =~= views_of(tags@));
            let task = TaskWithContent {
                id,
                title: title.to_owned(),
                completed: false,
                section: "Active".to_owned(),
                priority: Some("normal".to_owned()),
                due_date: match due_date {
                    Some(d) => Some(d.to_owned()),
                    None => None,
                },
                is_active: true,
                tags: own_tags,
                parent_id: None,
                recurrence: Some(rule.to_owned()),
                recurrence_interval: Some(interval),
                project_id: project_id.to_owned(),
                path: cat5("projects/", project_id, "/tasks/", stem.as_str(), ".md"),
                created: now.to_owned(),
                updated: now.to_owned(),
                content: body,
            };
            Ok(NewTask { stem, text, frontmatter: fm, task })
        },
        Err(detail) => Err(Unwritable { frontmatter: fm, detail }),
    }
}

/// A field set to a text where one is given.
pub open spec fn with_text(fields: Map<Seq<char>, Field>, key: Seq<char>, value: Option<String>) -> Map<
    Seq<char>,
    Field,
> {
    match value {
        Some(v) => fields.insert(key, Field::Text(v@)),
        None => fields,
    }
}

/// The fields of a task after a change of metadata at the time with text
/// `stamp`. Fields left out of the request stay; an empty recurrence rule
/// removes rule and interval.
pub open spec fn meta_fields(fields: Map<Seq<char>, Field>, meta: UpdateTaskMetaRequest, stamp: Seq<char>) -> Map<
    Seq<char>,
    Field,
> {
    let a = with_text(fields, "title"@, meta.title);
    let b = with_text(a, "section"@, meta.section);
    let c = with_text(b, "priority"@, meta.priority);
    let d = with_text(c, "due_date"@, meta.due_date);
    let e = match meta.is_active {
        Some(v) => d.insert("is_active"@, Field::Flag(v)),
        None => d,
    };
    let f = match meta.tags {
        Some(t) => e.insert("tags"@, Field::List(as_items(views_of(t@)))),
        None => e,
    };
    let g = match meta.recurrence {
        Some(r) => if r@.len() == 0 {
            f.remove("recurrence"@).remove("recurrence_interval"@)
        } else {
            f.insert("recurrence"@, Field::Text(r@))
        },
        None => f,
    };
    let h = match meta.recurrence_interval {
        Some(n) => g.insert("recurrence_interval"@, Field::Natural(n as u64)),
        None => g,
    };
    h.insert("updated"@, Field::Text(stamp))
}

fn set_optional_text(fm: &mut serde_yaml::Mapping, key: &str, value: &Option<String>)
    ensures
        fields_of(*final(fm)) == with_text(fields_of(*old(fm)), key@, *value),
{
    match value {
        Some(v) => set_text(fm, key, v.as_str()),
        None => {},
    }
}

/// Changes the metadata of a task at the time with text `stamp`: returns
/// the text to write and the frontmatter as written. Fails exactly when
/// the frontmatter has no YAML text, and then hands that frontmatter back
/// with the reason.
pub fn update_task_meta_at(content: &str, meta: &UpdateTaskMetaRequest, stamp: &str) -> (r: Result<
    (String, serde_yaml::Mapping),
    Unwritable,
>)
    ensures
        match r {
            Ok((text, fm)) => writes(
                fm,
                meta_fields(frontmatter_fields(content@), *meta, stamp@),
                frame_of(content@).body,
                text@,
            ),
            Err(e) => fails_with(
                e,
                meta_fields(frontmatter_fields(content@), *meta, stamp@),
                frame_of(content@).body,
            ),
        },
{
    let (mut fm, body, _has) = parse_frontmatter(content);
    set_optional_text(&mut fm, "title", &meta.title);
    set_optional_text(&mut fm, "section", &meta.section);
    set_optional_text(&mut fm, "priority", &meta.priority);
    set_optional_text(&mut fm, "due_date", &meta.due_date);
    match meta.is_active {
        Some(v) => set_flag(&mut fm, "is_active", v),
        None => {},
    }
    match &meta.tags {
        Some(t) => set_list(&mut fm, "tags", t),
        None => {},
    }
    match &meta.recurrence {
        Some(r) => {
            if r.as_str().unicode_len() == 0 {
                remove_key(&mut fm, "recurrence");
                remove_key(&mut fm, "recurrence_interval");
            } else {
                set_text(&mut fm, "recurrence", r.as_str());
            }
        },
        None => {},
    }
    match meta.recurrence_interval {
        Some(n) => set_natural(&mut fm, "recurrence_interval", n as u64),
        None => {},
    }
    set_text(&mut fm, "updated", stamp);
    match serialize_frontmatter(&fm, body.as_str()) {
        Ok(text) => Ok((text, fm)),
        Err(detail) => Err(Unwritable { frontmatter: fm, detail }),
    }
}

/// Where the file of a deleted task goes: into the archive, under the
/// project's name, a dash and the file's own name.
pub fn archived_task_path(archive_dir: &str, project_id: &str, file_name: &str) -> (r: String)
    ensures
        r@ == archive_dir@ + "/"@ + project_id@ + "-"@ + file_name@,
{
    cat5(archive_dir, "/", project_id, "-", file_name)
}

/// The creation time of each task.
pub open spec fn created_of(tasks: Seq<Task>) -> Seq<Seq<char>> {
    Seq::new(tasks.len(), |i: int| tasks[i].created@)
}

/// The tasks created at `key`, in their order.
pub open spec fn created_at(tasks: Seq<Task>, key: Seq<char>) -> Seq<Task> {
    tasks.filter(|t: Task| t.created@ == key)
}

/// `after` is `before` in listing order: the same tasks, newest first by
/// creation time, tasks of one creation time in the order they had.
pub open spec fn newest_first(before: Seq<Task>, after: Seq<Task>) -> bool {
    &&& after.to_multiset() == before.to_multiset()
    &&& descending(created_of(after))
    &&& forall|key: Seq<char>| created_at(after, key) == created_at(before, key)
}

/// Puts the tasks in listing order.
///
/// Trusted: calls `slice::sort_by_key`, a stable sort that rearranges the
/// items by ascending key and drops or adds none. The key is the creation
/// time under `std::cmp::Reverse`, and `String` compares by bytes, which
/// for text is the order of its characters: so the newest comes first and
/// tasks of one creation time keep their order.
#[verifier::external_body]
pub(crate) fn sort_by_created(tasks: &mut Vec<Task>)
    ensures
        newest_first(old(tasks)@, final(tasks)@),
{
    tasks.sort_by_key(|t| std::cmp::Reverse(t.created.clone()));
}

/// Puts tasks in listing order: newest first by creation time, tasks of one
/// creation time in the order they had. No task is lost or added.
pub fn sort_tasks(tasks: Vec<Task>) -> (sorted: Vec<Task>)
    ensures
        newest_first(tasks@, sorted@),
{
    let mut sorted = tasks;
    sort_by_created(&mut sorted);
    sorted
}

} // verus!
