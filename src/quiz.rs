//! What the quiz commands compute before they reach the database or the
//! terminal: the tag-filter query, and the text of listed questions.
use vstd::prelude::*;
use vstd::string::*;
use crate::phrase::push_char;

verus! {

/// A quiz question as it is stored: `id` is set once it has been stored.
#[derive(Clone, Debug)]
pub struct Question {
    pub id: Option<i64>,
    pub description: String,
    pub answer: String,
    pub distractors: Vec<String>,
    pub tags: Vec<String>,
}

/// `n` SQL placeholders separated by commas: `?,?,?` for three.
pub open spec fn placeholders_text(n: nat) -> Seq<char>
    decreases n,
{
    if n == 0 {
        Seq::empty()
    } else if n == 1 {
        seq!['?']
    } else {
        placeholders_text((n - 1) as nat) + seq![',', '?']
    }
}

/// The parts of `items`, each followed by `sep` but the last.
pub open spec fn join(items: Seq<Seq<char>>, sep: Seq<char>) -> Seq<char>
    decreases items.len(),
{
    if items.len() == 0 {
        Seq::empty()
    } else if items.len() == 1 {
        items[0]
    } else {
        join(items.drop_last(), sep) + sep + items.last()
    }
}

/// The decimal digit of `n < 10`.
pub open spec fn digit(n: nat) -> char {
    seq!['0', '1', '2', '3', '4', '5', '6', '7', '8', '9'][n as int]
}

/// The decimal digits of `n`, without leading zeros.
pub open spec fn digits(n: nat) -> Seq<char>
    decreases n,
{
    if n < 10 {
        seq![digit(n)]
    } else {
        digits(n / 10).push(digit(n % 10))
    }
}

/// `n` in decimal, with `-` before a negative value.
pub open spec fn decimal(n: int) -> Seq<char> {
    if n < 0 {
        seq!['-'] + digits((-n) as nat)
    } else {
        digits(n as nat)
    }
}

/// Relies on the `Display` of `i64` (through `to_string`): its decimal
/// digits, with `-` before a negative value.
#[verifier::external_body]
fn decimal_string(n: i64) -> (r: String)
    ensures
        r@ == decimal(n as int),
{
    n.to_string()
}

/// Writes `n` SQL placeholders separated by commas.
pub fn placeholders(n: usize) -> (r: String)
    ensures
        r@ == placeholders_text(n as nat),
{
    let mut r = String::new();
    let mut i: usize = 0;
    while i < n
        invariant
            i <= n,
            r@ == placeholders_text(i as nat),
        decreases n - i,
    {
        if i > 0 {
            push_char(&mut r, ',');
        }
        push_char(&mut r, '?');
        proof {
            if i > 0 {
                assert(r@ =~= placeholders_text(i as nat) + seq![',', '?']);
            } else {
                assert(r@ =~= seq!['?']);
            }
        }
        i = i + 1;
    }
    r
}

/// Appends each of `items` to `r`, with `sep` between two of them.
fn append_joined(r: &mut String, items: &Vec<String>, sep: &str)
    ensures
        final(r)@ == old(r)@ + join(items@.map_values(|s: String| s@), sep@),
{
    let ghost start = r@;
    let ghost parts = items@.map_values(|s: String| s@);
    let n = items.len();
    let mut i: usize = 0;
    while i < n
        invariant
            n == items@.len(),
            parts == items@.map_values(|s: String| s@),
            i <= n,
            r@ == start + join(parts.subrange(0, i as int), sep@),
        decreases n - i,
    {
        proof {
            assert(parts.subrange(0, i as int + 1).drop_last() =~= parts.subrange(0, i as int));
        }
        if i > 0 {
            r.append(sep);
        }
        r.append(items[i].as_str());
        proof {
            if i > 0 {
                assert(r@ =~= start + join(parts.subrange(0, i as int + 1), sep@));
            } else {
                assert(r@ =~= start + join(parts.subrange(0, i as int + 1), sep@));
            }
        }
        i = i + 1;
    }
    assert(parts.subrange(0, n as int) =~= parts);
}

/// The views of some strings.
pub open spec fn texts(v: Seq<String>) -> Seq<Seq<char>> {
    v.map_values(|s: String| s@)
}

/// The first `n` characters of `s`, or all of it when it is shorter.
pub open spec fn prefix(s: Seq<char>, n: nat) -> Seq<char> {
    if s.len() <= n {
        s
    } else {
        s.subrange(0, n as int)
    }
}

/// The lines that list a stored question: its id and the first 60
/// characters of its description, its answer, and its distractors one per
/// line.
pub open spec fn list_entry_text(q: Question) -> Seq<char> {
    decimal(q.id->0 as int) + ". "@ + prefix(q.description@, 60) + "\nAnswer:\n"@ + q.answer@
        + "\nDistractors:\n"@ + join(texts(q.distractors@), "\n"@) + "\n"@
}

/// The listing of `qs`, one entry after the other.
pub open spec fn list_text(qs: Seq<Question>) -> Seq<char>
    decreases qs.len(),
{
    if qs.len() == 0 {
        Seq::empty()
    } else {
        list_text(qs.drop_last()) + list_entry_text(qs.last())
    }
}

/// Each distractor as a bullet of a markdown list.
pub open spec fn bullets(ds: Seq<Seq<char>>) -> Seq<Seq<char>> {
    ds.map_values(|d: Seq<char>| "* "@ + d)
}

/// The markdown section of a stored question: a heading with its id, the
/// description, the answer marked as right, then the distractors.
pub open spec fn markdown_text(q: Question) -> Seq<char> {
    "\n\n## "@ + decimal(q.id->0 as int) + " \n\n"@ + q.description@ + "\n\n* "@ + q.answer@
        + " :heavy_check_mark:\n"@ + join(bullets(texts(q.distractors@)), "\n"@)
}

/// The line that shows the configured theme and where it came from.
pub open spec fn config_text(kind: Seq<char>, theme: Seq<char>) -> Seq<char> {
    "["@ + kind + "] Theme: "@ + theme + "\n"@
}

/// The query of questions joined with their tags.
pub open spec fn query_head() -> Seq<char> {
    "SELECT q.id, q.description, q.answer, q.distractors
        FROM questions AS q
        INNER JOIN question_tags AS qt ON q.id = qt.question_id
        INNER JOIN tags AS t ON qt.tag_id = t.id\n"@
}

/// The query of questions filtered by tags: with `has` tags wanted and `no`
/// tags refused, one placeholder for each.
pub open spec fn query_text(has: nat, no: nat) -> Seq<char> {
    query_head() + (if has > 0 {
        "WHERE t.text IN ("@ + placeholders_text(has) + ")\n"@
    } else {
        Seq::empty()
    }) + (if no > 0 {
        "AND t.text NOT IN ("@ + placeholders_text(no) + ")\n"@
    } else {
        Seq::empty()
    })
}

/// The listing of one stored question.
pub fn list_entry(q: &Question) -> (r: String)
    requires
        q.id is Some,
    ensures
        r@ == list_entry_text(*q),
{
    let id = q.id.unwrap();
    let mut r = decimal_string(id);
    r.append(". ");
    let description = q.description.as_str();
    let len = description.unicode_len();
    let end = if len < 60 {
        len
    } else {
        60
    };
    r.append(description.substring_char(0, end));
    r.append("\nAnswer:\n");
    r.append(q.answer.as_str());
    r.append("\nDistractors:\n");
    append_joined(&mut r, &q.distractors, "\n");
    r.append("\n");
    assert(r@ =~= list_entry_text(*q));
    r
}

/// The listing of stored questions, in order.
pub fn questions_list(questions: &Vec<Question>) -> (r: String)
    requires
        forall|i: int| 0 <= i < questions@.len() ==> (#[trigger] questions@[i]).id is Some,
    ensures
        r@ == list_text(questions@),
{
    let mut r = String::new();
    let n = questions.len();
    let mut i: usize = 0;
    while i < n
        invariant
            n == questions@.len(),
            i <= n,
            forall|i: int| 0 <= i < questions@.len() ==> (#[trigger] questions@[i]).id is Some,
            r@ == list_text(questions@.subrange(0, i as int)),
        decreases n - i,
    {
        let entry = list_entry(&questions[i]);
        r.append(entry.as_str());
        assert(questions@.subrange(0, i as int + 1).drop_last() =~= questions@.subrange(
            0,
            i as int,
        ));
        i = i + 1;
    }
    assert(questions@.subrange(0, n as int) =~= questions@);
    r
}

/// The markdown section of one stored question.
pub fn question_markdown(q: &Question) -> (r: String)
    requires
        q.id is Some,
    ensures
        r@ == markdown_text(*q),
{
    let id = q.id.unwrap();
    let mut items: Vec<String> = Vec::new();
    let n = q.distractors.len();
    let mut i: usize = 0;
    while i < n
        invariant
            n == q.distractors@.len(),
            i <= n,
            texts(items@) =~= bullets(texts(q.distractors@.subrange(0, i as int))),
        decreases n - i,
    {
        let mut b = String::from_str("* ");
        b.append(q.distractors[i].as_str());
        let ghost prev = items@;
        let ghost bv = b@;
        items.push(b);
        proof {
            let ds = q.distractors@;
            assert(texts(items@) =~= texts(prev).push(bv));
            assert(ds.subrange(0, i as int + 1) =~= ds.subrange(0, i as int).push(ds[i as int]));
            assert(texts(ds.subrange(0, i as int + 1)) =~= texts(ds.subrange(0, i as int)).push(
                ds[i as int]@,
            ));
        }
        i = i + 1;
    }
    assert(q.distractors@.subrange(0, n as int) =~= q.distractors@);
    let mut r = String::from_str("\n\n## ");
    let digits = decimal_string(id);
    r.append(digits.as_str());
    r.append(" \n\n");
    r.append(q.description.as_str());
    r.append("\n\n* ");
    r.append(q.answer.as_str());
    r.append(" :heavy_check_mark:\n");
    append_joined(&mut r, &items, "\n");
    assert(r@ =~= markdown_text(*q));
    r
}

/// The line that shows the configured theme `theme` and its origin `kind`.
pub fn config_line(kind: &str, theme: &str) -> (r: String)
    ensures
        r@ == config_text(kind@, theme@),
{
    let mut r = String::from_str("[");
    r.append(kind);
    r.append("] Theme: ");
    r.append(theme);
    r.append("\n");
    assert(r@ =~= config_text(kind@, theme@));
    r
}

/// The query of questions that carry one of `has_tags` tags and none of
/// `no_tags` tags; its parameters are the wanted tags, then the refused ones.
pub fn questions_query(has_tags: usize, no_tags: usize) -> (r: String)
    ensures
        r@ == query_text(has_tags as nat, no_tags as nat),
{
    let mut r = String::from_str(
        "SELECT q.id, q.description, q.answer, q.distractors
        FROM questions AS q
        INNER JOIN question_tags AS qt ON q.id = qt.question_id
        INNER JOIN tags AS t ON qt.tag_id = t.id\n",
    );
    if has_tags > 0 {
        r.append("WHERE t.text IN (");
        let p = placeholders(has_tags);
        r.append(p.as_str());
        r.append(")\n");
    }
    if no_tags > 0 {
        r.append("AND t.text NOT IN (");
        let p = placeholders(no_tags);
        r.append(p.as_str());
        r.append(")\n");
    }
    assert(r@ =~= query_text(has_tags as nat, no_tags as nat));
    r
}

/// The cells of a stored question in the question table: id, description,
/// answer, and the distractors one per line.
pub open spec fn about_cells(q: Question) -> Seq<Seq<char>> {
    seq![decimal(q.id->0 as int), q.description@, q.answer@, join(texts(q.distractors@), "\n"@)]
}

/// The heading of the question table.
pub open spec fn about_heading() -> Seq<Seq<char>> {
    seq!["ID"@, "Description"@, "Answer"@, "Distractors"@]
}

/// The row of one stored question in the question table.
pub fn about_row(q: &Question) -> (r: Vec<String>)
    requires
        q.id is Some,
    ensures
        texts(r@) == about_cells(*q),
{
    let id = q.id.unwrap();
    let mut ds = String::new();
    append_joined(&mut ds, &q.distractors, "\n");
    let mut r: Vec<String> = Vec::new();
    r.push(decimal_string(id));
    r.push(q.description.clone());
    r.push(q.answer.clone());
    r.push(ds);
    assert(texts(r@) =~= about_cells(*q));
    r
}

/// The rows of the question table: the heading, then one row for each
/// stored question, in order.
pub fn about_rows(questions: &Vec<Question>) -> (r: Vec<Vec<String>>)
    requires
        forall|i: int| 0 <= i < questions@.len() ==> (#[trigger] questions@[i]).id is Some,
    ensures
        r@.len() == questions@.len() + 1,
        texts(r@[0]@) == about_heading(),
        forall|i: int| 0 <= i < questions@.len() ==> texts(#[trigger] r@[i + 1]@) == about_cells(questions@[i]),
{
    let mut heading: Vec<String> = Vec::new();
    heading.push(String::from_str("ID"));
    heading.push(String::from_str("Description"));
    heading.push(String::from_str("Answer"));
    heading.push(String::from_str("Distractors"));
    assert(texts(heading@) =~= about_heading());
    let mut r: Vec<Vec<String>> = Vec::new();
    r.push(heading);
    let n = questions.len();
    let mut i: usize = 0;
    while i < n
        invariant
            n == questions@.len(),
            i <= n,
            forall|i: int| 0 <= i < questions@.len() ==> (#[trigger] questions@[i]).id is Some,
            r@.len() == i + 1,
            texts(r@[0]@) == about_heading(),
            forall|j: int| 0 <= j < i ==> texts(#[trigger] r@[j + 1]@) == about_cells(questions@[j]),
        decreases n - i,
    {
        let row = about_row(&questions[i]);
        r.push(row);
        i = i + 1;
    }
    r
}

} // verus!
