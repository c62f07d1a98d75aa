//! JSON documents, as far as tokens and the license server use them: objects and their members.

use crate::double;
use crate::text;
use std::collections::HashMap;
use tinyjson::JsonValue;
use vstd::prelude::*;

verus! {

/// A member of an object. A number is held as the 64 bits of its double.
pub enum Member {
    /// A number.
    Number(u64),
    /// `true` or `false`.
    Boolean(bool),
    /// A string.
    Text(String),
    /// `null`.
    Null,
    /// An array.
    Array,
    /// An object.
    Object,
}

/// What a [`Member`] stands for.
pub enum MemberView {
    /// A number.
    Number(u64),
    /// `true` or `false`.
    Boolean(bool),
    /// A string.
    Text(Seq<char>),
    /// `null`.
    Null,
    /// An array.
    Array,
    /// An object.
    Object,
}

impl View for Member {
    type V = MemberView;

    open spec fn view(&self) -> MemberView {
        match self {
            Member::Number(bits) => MemberView::Number(*bits),
            Member::Boolean(b) => MemberView::Boolean(*b),
            Member::Text(s) => MemberView::Text(s@),
            Member::Null => MemberView::Null,
            Member::Array => MemberView::Array,
            Member::Object => MemberView::Object,
        }
    }
}

/// The members of an object by name, the later of two with one name counting.
pub open spec fn members_by_name(entries: Seq<(String, Member)>) -> Map<Seq<char>, MemberView>
    decreases entries.len(),
{
    if entries.len() == 0 {
        Map::empty()
    } else {
        members_by_name(entries.drop_last()).insert(entries.last().0@, entries.last().1@)
    }
}

/// A document.
pub enum Document {
    /// A text that is no JSON document, with what is wrong with it.
    Invalid(String),
    /// An object, with its members in some order.
    Object(Vec<(String, Member)>),
    /// Any other document.
    Other,
}

/// What a [`Document`] stands for.
pub enum DocumentView {
    /// A text that is no JSON document, with what is wrong with it.
    Invalid(Seq<char>),
    /// An object.
    Object(Map<Seq<char>, MemberView>),
    /// Any other document.
    Other,
}

impl View for Document {
    type V = DocumentView;

    open spec fn view(&self) -> DocumentView {
        match self {
            Document::Invalid(e) => DocumentView::Invalid(e@),
            Document::Object(entries) => DocumentView::Object(members_by_name(entries@)),
            Document::Other => DocumentView::Other,
        }
    }
}

/// Whether a character may stand between the parts of a document.
pub open spec fn is_json_space(c: char) -> bool {
    c == ' ' || c == '\n' || c == '\r' || c == '\t'
}

/// What a document holds, apart from what is said of a text that is none.
pub enum Content {
    /// A text that is no JSON document.
    Invalid,
    /// An object.
    Object(Map<Seq<char>, MemberView>),
    /// Any other document.
    Other,
}

/// What a document holds.
pub open spec fn content(document: DocumentView) -> Content {
    match document {
        DocumentView::Invalid(_) => Content::Invalid,
        DocumentView::Object(members) => Content::Object(members),
        DocumentView::Other => Content::Other,
    }
}

/// The document with this content, where `error` is said of a text that is none.
pub open spec fn described(content: Content, error: Seq<char>) -> DocumentView {
    match content {
        Content::Invalid => DocumentView::Invalid(error),
        Content::Object(members) => DocumentView::Object(members),
        Content::Other => DocumentView::Other,
    }
}

/// How deep arrays and objects may be nested in a text that is read. A text is read recursively,
/// so that the stack sets a limit; this one is well within it.
pub const MAX_NESTING: usize = 512;

/// Where a part of a text ends.
pub struct Position {
    /// The number of brackets and braces that are open.
    pub depth: nat,
    /// Whether it ends inside a string.
    pub in_string: bool,
    /// Whether it ends behind a backslash inside a string.
    pub escaped: bool,
}

/// Where a part of a text ends that is longer by one byte.
pub open spec fn advanced(at: Position, b: u8) -> Position {
    if at.in_string {
        Position {
            in_string: at.escaped || b != '"' as u8,
            escaped: !at.escaped && b == '\\' as u8,
            ..at
        }
    } else if b == '"' as u8 {
        Position { in_string: true, ..at }
    } else if b == '[' as u8 || b == '{' as u8 {
        Position { depth: at.depth + 1, ..at }
    } else if (b == ']' as u8 || b == '}' as u8) && at.depth > 0 {
        Position { depth: (at.depth - 1) as nat, ..at }
    } else {
        at
    }
}

/// Where a part of a text ends.
pub open spec fn position(s: Seq<u8>) -> Position
    decreases s.len(),
{
    if s.len() == 0 {
        Position { depth: 0, in_string: false, escaped: false }
    } else {
        advanced(position(s.drop_last()), s.last())
    }
}

/// Whether nowhere in a text more brackets and braces are open than a text that is read may have.
pub open spec fn is_shallow(s: Seq<u8>) -> bool {
    forall|k: int| 0 <= k <= s.len() ==> position(#[trigger] s.take(k)).depth <= MAX_NESTING
}

/// Tests whether a text may be read.
pub fn shallow(text: &str) -> (r: bool)
    ensures
        r == is_shallow(text::utf8(text@)),
{
    let s = text.as_bytes();
    let mut depth: usize = 0;
    let mut in_string: bool = false;
    let mut escaped: bool = false;
    let mut i: usize = 0;
    while i < s.len()
        invariant
            i <= s@.len(),
            s@ == text::utf8(text@),
            position(s@.take(i as int)) == (Position { depth: depth as nat, in_string, escaped }),
            depth <= MAX_NESTING,
            forall|k: int|
                0 <= k <= i ==> position(#[trigger] s@.take(k)).depth <= MAX_NESTING,
        decreases s.len() - i,
    {
        let b: u8 = s[i];
        proof {
            let longer = s@.take(i + 1);
            assert(longer.drop_last() =~= s@.take(i as int));
            assert(longer.last() == b);
        }
        if in_string {
            in_string = escaped || b != '"' as u8;
            escaped = !escaped && b == '\\' as u8;
        } else if b == '"' as u8 {
            in_string = true;
        } else if b == '[' as u8 || b == '{' as u8 {
            if depth == MAX_NESTING {
                assert(position(s@.take(i + 1)).depth > MAX_NESTING);
                return false;
            }
            depth += 1;
        } else if (b == ']' as u8 || b == '}' as u8) && depth > 0 {
            depth -= 1;
        }
        i += 1;
    }
    true
}

/// The content of the document that `tinyjson` reads from a text.
pub uninterp spec fn json_document(text: Seq<char>) -> Content;

/// Calls `tinyjson::JsonValue::from_str`, through `str::parse`. What it reads depends on the text
/// alone and is only given a name, but for this: an object begins with `{`, behind white space at
/// most. What is said of a text that is no document is left open, since it may show an object with
/// its members in whatever order a hash map is walked. The members of nested arrays and objects
/// are not handed out. The function recurses for each array and object and ends the program where
/// the stack is used up, so texts that nest deeply are left out.
#[verifier::external_body]
pub(crate) fn parse_json(text: &str) -> (r: Document)
    requires
        is_shallow(text::utf8(text@)),
    ensures
        content(r@) == json_document(text@),
        r is Object ==> text@.len() > 0 && (text@[0] == '{' || is_json_space(text@[0])),
{
    match text.parse::<JsonValue>() {
        Err(e) => Document::Invalid(e.to_string()),
        Ok(JsonValue::Object(members)) => Document::Object(members.into_iter().map(|(name, value)| (name, match value {
            JsonValue::Number(n) => Member::Number(n.to_bits()),
            JsonValue::Boolean(b) => Member::Boolean(b),
            JsonValue::String(s) => Member::Text(s),
            JsonValue::Null => Member::Null,
            JsonValue::Array(_) => Member::Array,
            JsonValue::Object(_) => Member::Object,
        })).collect()),
        Ok(_) => Document::Other,
    }
}

/// Whether a reading of the text may have given the document. Nothing else is known to be given
/// than what a reading gave.
pub closed spec fn was_read(text: Seq<char>, document: Document) -> bool {
    exists|t: &str| t@ == text && call_ensures(parse_json, (t,), document)
}

/// Whether this may be said of a text that is no document, or the text is one.
pub open spec fn may_be_said(text: Seq<char>, error: Seq<char>) -> bool {
    exists|document: Document| #[trigger]
        was_read(text, document) && (document@ is Invalid ==> document@->Invalid_0 == error)
}

/// Takes a reading of a text.
fn reading_of<R: FnOnce(&str) -> Document>(reader: R, text: &str) -> (r: Document)
    requires
        call_requires(reader, (text,)),
    ensures
        call_ensures(reader, (text,), r),
{
    reader(text)
}

/// Reads a text.
pub fn read(text: &str) -> (r: Document)
    requires
        is_shallow(text::utf8(text@)),
    ensures
        content(r@) == json_document(text@),
        r is Object ==> text@.len() > 0 && (text@[0] == '{' || is_json_space(text@[0])),
        was_read(text@, r),
{
    reading_of(parse_json, text)
}

/// A member of an object that is sent.
pub enum Field {
    /// A string.
    Text(String),
    /// A number.
    Number(u32),
}

/// What a [`Field`] stands for.
pub enum FieldView {
    /// A string.
    Text(Seq<char>),
    /// A number.
    Number(u32),
}

impl View for Field {
    type V = FieldView;

    open spec fn view(&self) -> FieldView {
        match self {
            Field::Text(s) => FieldView::Text(s@),
            Field::Number(n) => FieldView::Number(*n),
        }
    }
}

/// Fields with their names, as what they stand for.
pub open spec fn field_views(fields: Seq<(String, Field)>) -> Seq<(Seq<char>, FieldView)> {
    fields.map_values(|f: (String, Field)| (f.0@, f.1@))
}

/// Whether no two fields have one name.
pub open spec fn distinct_names(fields: Seq<(Seq<char>, FieldView)>) -> bool {
    forall|i: int, j: int|
        0 <= i < j < fields.len() ==> (#[trigger] fields[i]).0 != (#[trigger] fields[j]).0
}

/// Whether a member holds what a field says.
pub open spec fn holds(member: MemberView, field: FieldView) -> bool {
    match (member, field) {
        (MemberView::Text(a), FieldView::Text(b)) => a == b,
        (MemberView::Number(bits), FieldView::Number(n)) => double::integer_value(bits) == Some(
            n as int,
        ),
        _ => false,
    }
}

/// Whether an object has these fields and no others.
pub open spec fn has_exactly(
    members: Map<Seq<char>, MemberView>,
    fields: Seq<(Seq<char>, FieldView)>,
) -> bool {
    &&& forall|name: Seq<char>| #[trigger]
        members.contains_key(name) <==> exists|i: int|
            0 <= i < fields.len() && (#[trigger] fields[i]).0 == name
    &&& forall|i: int|
        0 <= i < fields.len() ==> holds(members[(#[trigger] fields[i]).0], fields[i].1)
}

/// Whether a text is read as an object with exactly these fields.
pub open spec fn reads_as(text: Seq<char>, fields: Seq<(Seq<char>, FieldView)>) -> bool {
    match json_document(text) {
        Content::Object(members) => has_exactly(members, fields),
        _ => false,
    }
}

/// Whether a text has no line end in it.
pub open spec fn is_one_line(text: Seq<char>) -> bool {
    !text.contains('\n')
}

/// Calls `tinyjson::JsonValue::stringify` on the object with the fields. The members come out in
/// whatever order a hash map is walked, so the text itself is not fixed; but it is read back as
/// an object with exactly these fields, and it is one line.
#[verifier::external_body]
pub(crate) fn stringify_object(fields: &Vec<(String, Field)>) -> (r: String)
    requires
        distinct_names(field_views(fields@)),
    ensures
        reads_as(r@, field_views(fields@)),
        is_one_line(r@),
{
    let mut object: HashMap<String, JsonValue> = HashMap::new();
    for (name, field) in fields {
        object.insert(name.clone(), match field {
            Field::Text(s) => JsonValue::String(s.clone()),
            Field::Number(n) => JsonValue::Number((*n).into()),
        });
    }
    JsonValue::from(object).stringify().unwrap()
}

/// Finds a member of an object by its name.
pub fn find_member<'a>(entries: &'a Vec<(String, Member)>, name: &str) -> (r: Option<&'a Member>)
    ensures
        r is Some <==> members_by_name(entries@).contains_key(name@),
        r matches Some(m) ==> m@ == members_by_name(entries@)[name@],
{
    let mut i: usize = entries.len();
    assert(entries@.take(i as int) =~= entries@);
    while i > 0
        invariant
            i <= entries@.len(),
            members_by_name(entries@).contains_key(name@) <==> members_by_name(
                entries@.take(i as int),
            ).contains_key(name@),
            members_by_name(entries@.take(i as int)).contains_key(name@) ==> members_by_name(
                entries@,
            )[name@] == members_by_name(entries@.take(i as int))[name@],
        decreases i,
    {
        let entry = &entries[i - 1];
        proof {
            assert(entries@.take(i as int).drop_last() =~= entries@.take(i - 1));
            assert(entries@.take(i as int).last() == entries@[i - 1]);
        }
        if text::same_text(entry.0.as_str(), name) {
            return Some(&entry.1);
        }
        i -= 1;
    }
    assert(entries@.take(0).len() == 0);
    None
}

/// No more brackets and braces are open than were opened.
proof fn lemma_depth(s: Seq<u8>)
    ensures
        position(s).depth <= s.filter(|b: u8| b == 91 || b == 123).len(),
    decreases s.len(),
{
    reveal(Seq::filter);
    if s.len() > 0 {
        lemma_depth(s.drop_last());
    }
}

/// A part of a text opens no more than the text.
proof fn lemma_fewer_in_part(s: Seq<u8>, k: int)
    requires
        0 <= k <= s.len(),
    ensures
        s.take(k).filter(|b: u8| b == 91 || b == 123).len() <= s.filter(
            |b: u8| b == 91 || b == 123,
        ).len(),
    decreases s.len(),
{
    reveal(Seq::filter);
    if k < s.len() {
        lemma_fewer_in_part(s.drop_last(), k);
        assert(s.drop_last().take(k) =~= s.take(k));
    } else {
        assert(s.take(k) =~= s);
    }
}

/// A text is read where it opens no more than 512 brackets and braces in all, whatever else it
/// holds.
pub proof fn law_few_brackets_are_read(s: Seq<u8>)
    requires
        s.filter(|b: u8| b == 91 || b == 123).len() <= 512,
    ensures
        is_shallow(s),
{
    assert forall|k: int| 0 <= k <= s.len() implies position(#[trigger] s.take(k)).depth
        <= MAX_NESTING by {
        lemma_depth(s.take(k));
        lemma_fewer_in_part(s, k);
    }
}

/// A member counts by its name unless a later one has the same name, and nothing else is a member.
pub proof fn law_later_members_count(entries: Seq<(String, Member)>, i: int)
    requires
        0 <= i < entries.len(),
        forall|j: int| i < j < entries.len() ==> (#[trigger] entries[j]).0@ != entries[i].0@,
    ensures
        members_by_name(entries).contains_key(entries[i].0@),
        members_by_name(entries)[entries[i].0@] == entries[i].1@,
        forall|name: Seq<char>| #[trigger]
            members_by_name(entries).contains_key(name) ==> exists|k: int|
                0 <= k < entries.len() && (#[trigger] entries[k]).0@ == name,
    decreases entries.len(),
{
    lemma_members_have_names(entries);
    if i < entries.len() - 1 {
        let head = entries.drop_last();
        assert(entries[entries.len() - 1].0@ != entries[i].0@);
        assert forall|j: int| i < j < head.len() implies (#[trigger] head[j]).0@ != head[i].0@ by {
            assert(entries[j].0@ != entries[i].0@);
        }
        law_later_members_count(head, i);
    }
}

/// Every member has the name of an entry.
proof fn lemma_members_have_names(entries: Seq<(String, Member)>)
    ensures
        forall|name: Seq<char>| #[trigger]
            members_by_name(entries).contains_key(name) ==> exists|k: int|
                0 <= k < entries.len() && (#[trigger] entries[k]).0@ == name,
    decreases entries.len(),
{
    if entries.len() > 0 {
        let head = entries.drop_last();
        lemma_members_have_names(head);
        assert forall|name: Seq<char>| #[trigger]
            members_by_name(entries).contains_key(name) implies exists|k: int|
            0 <= k < entries.len() && (#[trigger] entries[k]).0@ == name by {
            if name == entries.last().0@ {
                assert(entries[entries.len() - 1].0@ == name);
            } else {
                assert(members_by_name(head).contains_key(name));
                let k = choose|k: int| 0 <= k < head.len() && (#[trigger] head[k]).0@ == name;
                assert(entries[k].0@ == name);
            }
        }
    }
}

} // verus!
