//! Note identifiers and the framing of frontmatter in a markdown file.
//!
//! A file with frontmatter starts with `---`, holds YAML up to the next
//! `---`, and its body after that.

use vstd::prelude::*;
use crate::clock::text_view;
use crate::locks::views_of;
use crate::paths::{components, components_exec, relative_name, relative_name_exec};
use crate::yaml::{
    fields_of, flag_at, get_flag, get_list, get_natural, get_text, has_key, item_views, list_at,
    natural_at, new_mapping, no_fields, parse_yaml, render_yaml, set_text, text_at, yaml_fields,
    yaml_text, Field,
};
use crate::text::{
    chars_of, drop_front, drop_front_exec, find_sub, find_sub_exec, has_prefix, has_prefix_exec,
    join, join_exec, lemma_find_from, find_from, occurs_at, push_all, remove_all, remove_all_exec, rows,
    string_of, take_front_exec, trim_start, trim_start_exec,
};

verus! {

/// Each component without its occurrences of `.md`.
pub open spec fn without_md(parts: Seq<Seq<char>>) -> Seq<Seq<char>> {
    Seq::new(parts.len(), |i: int| remove_all(parts[i], ".md"@))
}

/// The identifier derived from a path: the components of its name relative
/// to the document root `root`, each without `.md`, joined with `-`; the
/// first of several components, the top-level folder, is left out.
pub open spec fn derived_id(root: Seq<char>, path: Seq<char>) -> Seq<char> {
    let parts = without_md(components(relative_name(root, path)));
    if parts.len() > 1 {
        join(parts.skip(1), "-"@)
    } else {
        join(parts, "-"@)
    }
}

/// Derives the identifier of a note from its path and the document root.
pub fn derive_id_from_path(root: &str, path: &str) -> (id: String)
    ensures
        id@ == derived_id(root@, path@),
{
    let rest = relative_name_exec(&chars_of(root), &chars_of(path));
    let raw = components_exec(&rest);
    let md = chars_of(".md");
    let first: usize = if raw.len() > 1 {
        1
    } else {
        0
    };
    let mut parts: Vec<Vec<char>> = Vec::new();
    let mut i: usize = first;
    let ghost all = without_md(components(rest@));
    while i < raw.len()
        invariant
            first <= i <= raw.len(),
            md@ == ".md"@,
            rows(raw@) == components(rest@),
            all == without_md(components(rest@)),
            rows(parts@) == all.subrange(first as int, i as int),
        decreases raw.len() - i,
    {
        let ghost before = rows(parts@);
        let part = remove_all_exec(&raw[i], &md);
        assert(rows(raw@)[i as int] == raw@[i as int]@);
        assert(part@ == all[i as int]);
        parts.push(part);
        assert(rows(parts@) =~= before.push(part@));
        i += 1;
    }
    proof {
        if first == 1 {
            assert(all.subrange(1, all.len() as int) =~= all.skip(1));
        } else {
            assert(all.subrange(0, all.len() as int) =~= all);
        }
    }
    let dash = chars_of("-");
    string_of(&join_exec(&parts, &dash))
}

/// The frame of a file: the YAML text, the body, and whether the file has
/// frontmatter at all.
pub struct Frame {
    pub yaml: Seq<char>,
    pub body: Seq<char>,
    pub has_frontmatter: bool,
}

/// The frame of `content`. Without a leading `---` everything is body. With
/// one, the YAML runs to the next `---` and the body follows it; where no
/// second `---` comes, the rest is YAML and the body is empty.
pub open spec fn frame_of(content: Seq<char>) -> Frame {
    if !has_prefix(content, "---"@) {
        Frame { yaml: Seq::empty(), body: content, has_frontmatter: false }
    } else {
        let rest = content.skip(3);
        match find_sub(rest, "---"@) {
            Some(i) => Frame {
                yaml: rest.take(i),
                body: drop_front(rest, i + 3),
                has_frontmatter: true,
            },
            None => Frame { yaml: rest, body: Seq::empty(), has_frontmatter: true },
        }
    }
}

/// Splits a file into YAML text, body and the flag that tells whether it
/// has frontmatter.
pub fn split_frontmatter(content: &str) -> (r: (String, String, bool))
    ensures
        r.0@ == frame_of(content@).yaml,
        r.1@ == frame_of(content@).body,
        r.2 == frame_of(content@).has_frontmatter,
{
    let chars = chars_of(content);
    let dashes = chars_of("---");
    proof {
        reveal_strlit("---");
    }
    if !has_prefix_exec(&chars, &dashes) {
        return (String::new(), content.to_owned(), false);
    }
    let rest = drop_front_exec(&chars, 3);
    assert(rest@ =~= content@.skip(3));
    match find_sub_exec(&rest, &dashes) {
        Some(i) => {
            proof {
                lemma_find_from(rest@, "---"@, 0);
                assert(find_from(rest@, "---"@, 0) == Some(i as int));
                assert(occurs_at(rest@, "---"@, i as int));
            }
            let len: usize = rest.len();
            assert(i + 3 <= len);
            let yaml = take_front_exec(&rest, i);
            let body = if i + 3 < len {
                drop_front_exec(&rest, i + 3)
            } else {
                Vec::new()
            };
            (string_of(&yaml), string_of(&body), true)
        },
        None => (string_of(&rest), String::new(), true),
    }
}

/// The text of a file with the given YAML and body: the YAML between two
/// `---` lines, an empty line, then the body without its leading white
/// space.
pub open spec fn framed(yaml: Seq<char>, body: Seq<char>) -> Seq<char> {
    "---\n"@ + yaml + "---\n\n"@ + trim_start(body)
}

/// Builds the text of a file from its YAML and its body.
pub fn frame_frontmatter(yaml: &str, body: &str) -> (content: String)
    ensures
        content@ == framed(yaml@, body@),
{
    let mut out = chars_of("---\n");
    push_all(&mut out, &chars_of(yaml));
    push_all(&mut out, &chars_of("---\n\n"));
    push_all(&mut out, &trim_start_exec(&chars_of(body)));
    string_of(&out)
}

/// The fields of the frontmatter of `content`.
pub open spec fn frontmatter_fields(content: Seq<char>) -> Map<Seq<char>, Field> {
    if frame_of(content).has_frontmatter {
        yaml_fields(frame_of(content).yaml)
    } else {
        no_fields()
    }
}

/// Reads a file: its frontmatter as a mapping, its body, and whether it
/// has frontmatter at all. Frontmatter that is no YAML mapping reads as an
/// empty mapping.
pub fn parse_frontmatter(content: &str) -> (r: (serde_yaml::Mapping, String, bool))
    ensures
        fields_of(r.0) == frontmatter_fields(content@),
        r.1@ == frame_of(content@).body,
        r.2 == frame_of(content@).has_frontmatter,
{
    let (yaml, body, has_fm) = split_frontmatter(content);
    if has_fm {
        (parse_yaml(yaml.as_str()), body, true)
    } else {
        (new_mapping(), body, false)
    }
}

/// The text of a file with this frontmatter and body, or the reason why
/// the frontmatter has no YAML text.
pub open spec fn serialized(fm: serde_yaml::Mapping, body: Seq<char>) -> Result<
    Seq<char>,
    Seq<char>,
> {
    match yaml_text(fm) {
        Ok(yaml) => Ok(framed(yaml, body)),
        Err(e) => Err(e),
    }
}

/// The fields of a file when only its update time is set anew, to the time
/// with text `stamp`.
pub open spec fn restamped_fields(content: Seq<char>, stamp: Seq<char>) -> Map<Seq<char>, Field> {
    frontmatter_fields(content).insert("updated"@, Field::Text(stamp))
}

/// Frontmatter that could not be written as YAML, with the reason.
#[derive(Debug)]
pub struct Unwritable {
    pub frontmatter: serde_yaml::Mapping,
    pub detail: String,
}

/// `text` is the file that `fm`, which has the fields `fields`, gives with
/// `body`.
pub open spec fn writes(
    fm: serde_yaml::Mapping,
    fields: Map<Seq<char>, Field>,
    body: Seq<char>,
    text: Seq<char>,
) -> bool {
    fields_of(fm) == fields && serialized(fm, body) == Ok::<Seq<char>, Seq<char>>(text)
}

/// `e` holds the frontmatter with the fields `fields` that has no YAML text,
/// and the reason why writing it with `body` failed.
pub open spec fn fails_with(e: Unwritable, fields: Map<Seq<char>, Field>, body: Seq<char>) -> bool {
    fields_of(e.frontmatter) == fields && serialized(e.frontmatter, body) == Err::<
        Seq<char>,
        Seq<char>,
    >(e.detail@)
}

/// Writes frontmatter and body back into the text of a file.
pub fn serialize_frontmatter(fm: &serde_yaml::Mapping, body: &str) -> (r: Result<String, String>)
    ensures
        crate::yaml::rendered_view(r) == serialized(*fm, body@),
{
    match render_yaml(fm) {
        Ok(yaml) => Ok(frame_frontmatter(yaml.as_str(), body)),
        Err(e) => Err(e),
    }
}

/// The fields of a newly created file.
pub open spec fn generated_fields(
    root: Seq<char>,
    path: Seq<char>,
    note_type: Seq<char>,
    stamp: Seq<char>,
) -> Map<
    Seq<char>,
    Field,
> {
    no_fields().insert("id"@, Field::Text(derived_id(root, path))).insert(
        "type"@,
        Field::Text(note_type),
    ).insert("created"@, Field::Text(stamp)).insert("updated"@, Field::Text(stamp))
}

/// Builds the frontmatter of a file created at the time with text `stamp`:
/// its derived identifier, its type, and the time as creation and update
/// time.
pub fn generate_frontmatter_at(root: &str, path: &str, note_type: &str, stamp: &str) -> (fm:
    serde_yaml::Mapping)
    ensures
        fields_of(fm) == generated_fields(root@, path@, note_type@, stamp@),
{
    let mut fm = new_mapping();
    let id = derive_id_from_path(root, path);
    set_text(&mut fm, "id", id.as_str());
    set_text(&mut fm, "type", note_type);
    set_text(&mut fm, "created", stamp);
    set_text(&mut fm, "updated", stamp);
    fm
}

/// Builds the frontmatter of a file created now.
pub fn generate_frontmatter(root: &str, path: &str, note_type: &str) -> (fm: serde_yaml::Mapping)
    ensures
        exists|stamp: Seq<char>|
            fields_of(fm) == #[trigger] generated_fields(root@, path@, note_type@, stamp),
{
    let stamp = crate::clock::now_text();
    generate_frontmatter_at(root, path, note_type, stamp.as_str())
}

/// The fields after the required ones are ensured at the time with text
/// `stamp`: a missing identifier is derived from the path, a missing
/// creation time is set, the update time is set anew; every other field
/// stays.
pub open spec fn ensured_fields(
    fields: Map<Seq<char>, Field>,
    root: Seq<char>,
    path: Seq<char>,
    stamp: Seq<char>,
) -> Map<Seq<char>, Field> {
    let with_id = if fields.dom().contains("id"@) {
        fields
    } else {
        fields.insert("id"@, Field::Text(derived_id(root, path)))
    };
    let with_created = if with_id.dom().contains("created"@) {
        with_id
    } else {
        with_id.insert("created"@, Field::Text(stamp))
    };
    with_created.insert("updated"@, Field::Text(stamp))
}

/// Ensures the required fields at the time with text `stamp`.
pub fn ensure_frontmatter_at(
    existing: &mut serde_yaml::Mapping,
    root: &str,
    path: &str,
    stamp: &str,
)
    ensures
        fields_of(*final(existing)) == ensured_fields(
            fields_of(*old(existing)),
            root@,
            path@,
            stamp@,
        ),
{
    if !has_key(existing, "id") {
        let id = derive_id_from_path(root, path);
        set_text(existing, "id", id.as_str());
    }
    if !has_key(existing, "created") {
        set_text(existing, "created", stamp);
    }
    set_text(existing, "updated", stamp);
}

/// Ensures the required fields now.
pub fn ensure_frontmatter(existing: &mut serde_yaml::Mapping, root: &str, path: &str)
    ensures
        exists|stamp: Seq<char>|
            fields_of(*final(existing)) == #[trigger] ensured_fields(
                fields_of(*old(existing)),
                root@,
                path@,
                stamp,
            ),
{
    let stamp = crate::clock::now_text();
    ensure_frontmatter_at(existing, root, path, stamp.as_str());
}

/// Sets the update time to the time with text `stamp`; every other field
/// stays.
pub fn update_frontmatter_at(existing: &mut serde_yaml::Mapping, stamp: &str)
    ensures
        fields_of(*final(existing)) == fields_of(*old(existing)).insert(
            "updated"@,
            Field::Text(stamp@),
        ),
{
    set_text(existing, "updated", stamp);
}

/// Sets the update time to now.
pub fn update_frontmatter(existing: &mut serde_yaml::Mapping)
    ensures
        exists|stamp: Seq<char>|
            fields_of(*final(existing)) == #[trigger] fields_of(*old(existing)).insert(
                "updated"@,
                Field::Text(stamp),
            ),
{
    let stamp = crate::clock::now_text();
    update_frontmatter_at(existing, stamp.as_str());
}

/// The frontmatter has an identifier, a creation time and an update time.
pub open spec fn complete(fields: Map<Seq<char>, Field>) -> bool {
    fields.dom().contains("id"@) && fields.dom().contains("created"@) && fields.dom().contains(
        "updated"@,
    )
}

/// Tells whether the frontmatter has all required fields.
pub fn is_frontmatter_complete(fm: &serde_yaml::Mapping) -> (r: bool)
    ensures
        r == complete(fields_of(*fm)),
{
    has_key(fm, "id") && has_key(fm, "created") && has_key(fm, "updated")
}

/// Ensuring the required fields makes the frontmatter complete and keeps
/// an identifier and a creation time that were there.
pub proof fn lemma_ensured_is_complete(fields: Map<Seq<char>, Field>,
    root: Seq<char>,
    path: Seq<char>,
    stamp: Seq<char>,
)
    ensures
        complete(ensured_fields(fields, root, path, stamp)),
        fields.dom().contains("id"@) ==> ensured_fields(fields, root, path, stamp)["id"@]
            == fields["id"@],
        fields.dom().contains("created"@) ==> ensured_fields(fields, root, path, stamp)["created"@]
            == fields["created"@],
        forall|k: Seq<char>|
            fields.dom().contains(k) && k != "updated"@ ==> ensured_fields(fields, root, path, stamp).dom().contains(k) && ensured_fields(fields, root, path, stamp)[k] == fields[k],
{
    reveal_strlit("id");
    reveal_strlit("created");
    reveal_strlit("updated");
    assert("id"@ != "created"@) by {
        assert("id"@.len() != "created"@.len());
    }
    assert("id"@ != "updated"@) by {
        assert("id"@.len() != "updated"@.len());
    }
    assert("created"@ != "updated"@) by {
        assert("created"@[0] != "updated"@[0]);
    }
}

/// Returns the text of a field that is a string.
pub fn get_str(fm: &serde_yaml::Mapping, key: &str) -> (r: Option<String>)
    ensures
        text_view(r) == text_at(fields_of(*fm), key@),
{
    get_text(fm, key)
}

/// Returns the text of a string field, or `default`.
pub fn get_str_or(fm: &serde_yaml::Mapping, key: &str, default: &str) -> (r: String)
    ensures
        r@ == (match text_at(fields_of(*fm), key@) {
            Some(s) => s,
            None => default@,
        }),
{
    match get_text(fm, key) {
        Some(s) => s,
        None => default.to_owned(),
    }
}

/// Returns the value of a field that is a boolean.
pub fn get_bool(fm: &serde_yaml::Mapping, key: &str) -> (r: Option<bool>)
    ensures
        r == flag_at(fields_of(*fm), key@),
{
    get_flag(fm, key)
}

/// Returns the value of a boolean field, or `default`.
pub fn get_bool_or(fm: &serde_yaml::Mapping, key: &str, default: bool) -> (r: bool)
    ensures
        r == (match flag_at(fields_of(*fm), key@) {
            Some(b) => b,
            None => default,
        }),
{
    match get_flag(fm, key) {
        Some(b) => b,
        None => default,
    }
}

/// Returns the value of a field that is a non-negative integer.
pub fn get_u64(fm: &serde_yaml::Mapping, key: &str) -> (r: Option<u64>)
    ensures
        r == natural_at(fields_of(*fm), key@),
{
    get_natural(fm, key)
}

/// The items that are strings, in order.
pub open spec fn texts_among(items: Seq<Option<Seq<char>>>) -> Seq<Seq<char>>
    decreases items.len(),
{
    if items.len() == 0 {
        Seq::empty()
    } else {
        match items.last() {
            Some(t) => texts_among(items.drop_last()).push(t),
            None => texts_among(items.drop_last()),
        }
    }
}

/// The strings of a field that is a sequence; none where it is no sequence.
pub open spec fn strings_at(fields: Map<Seq<char>, Field>, key: Seq<char>) -> Seq<Seq<char>> {
    match list_at(fields, key) {
        Some(items) => texts_among(items),
        None => Seq::empty(),
    }
}

/// Returns the strings of a sequence field, such as tags.
pub fn get_string_seq(fm: &serde_yaml::Mapping, key: &str) -> (r: Vec<String>)
    ensures
        views_of(r@) == strings_at(fields_of(*fm), key@),
{
    let mut out: Vec<String> = Vec::new();
    assert(views_of(out@) =~= Seq::<Seq<char>>::empty());
    match get_list(fm, key) {
        Some(items) => {
            let ghost all = item_views(items@);
            let mut i: usize = 0;
            assert(all.take(0) =~= Seq::<Option<Seq<char>>>::empty());
            while i < items.len()
                invariant
                    i <= items.len(),
                    all == item_views(items@),
                    views_of(out@) == texts_among(all.take(i as int)),
                decreases items.len() - i,
            {
                proof {
                    let next = all.take(i + 1);
                    assert(next.drop_last() =~= all.take(i as int));
                    assert(next.last() == text_view(items@[i as int]));
                }
                let ghost before = views_of(out@);
                match &items[i] {
                    Some(t) => {
                        out.push(t.clone());
                        assert(views_of(out@) =~= before.push(t@));
                    },
                    None => {},
                }
                i += 1;
            }
            assert(all.take(i as int) =~= all);
            out
        },
        None => out,
    }
}

} // verus!
