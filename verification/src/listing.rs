//! The listing: module items flattened into newline-terminated lines.
//!
//! Each line holds a title, an absolute link and the owning course's display
//! name, joined by the literal field separator. The listing is at once the
//! in-memory aggregation result, the on-disk cache payload, and the buffer
//! handed to the external selector. Order follows iteration order: courses
//! as configured, modules as the remote API returned them, items within a
//! module likewise; items lacking a title or a link are dropped silently.

use vstd::prelude::*;

verus! {

/// The literal separating the three fields of a listing line.
pub open spec fn field_sep() -> Seq<char> {
    " || "@
}

/// A configured course: remote-assigned identifier and display name.
#[derive(Debug)]
pub struct Course {
    pub id: u32,
    pub name: String,
}

/// One module item as fetched: either field may be missing in the remote
/// data (dividers and headers carry no link), and such items are dropped.
#[derive(Debug)]
pub struct PageEntry {
    pub title: Option<String>,
    pub link: Option<String>,
}

/// One module of a course response: the embedded sequence of its items.
#[derive(Debug)]
pub struct ModuleData {
    pub items: Vec<PageEntry>,
}

/// The serialized line for one item: the three fields joined by the field
/// separator, newline-terminated.
pub open spec fn line_of(title: Seq<char>, link: Seq<char>, course: Seq<char>) -> Seq<char> {
    title + field_sep() + link + field_sep() + course + "\n"@
}

/// An item enters the listing exactly when both its title and its link are
/// present.
pub open spec fn entry_included(e: PageEntry) -> bool {
    e.title is Some && e.link is Some
}

/// What one item contributes to the listing: its line if both fields are
/// present, nothing otherwise.
pub open spec fn entry_lines(e: PageEntry, course: Seq<char>) -> Seq<char> {
    if entry_included(e) {
        line_of(e.title.unwrap()@, e.link.unwrap()@, course)
    } else {
        Seq::<char>::empty()
    }
}

/// The lines of a sequence of items, in order.
pub open spec fn items_lines(items: Seq<PageEntry>, course: Seq<char>) -> Seq<char>
    decreases items.len(),
{
    if items.len() == 0 {
        Seq::<char>::empty()
    } else {
        items_lines(items.drop_last(), course) + entry_lines(items.last(), course)
    }
}

/// The lines of a course's modules, in order.
pub open spec fn module_lines(modules: Seq<ModuleData>, course: Seq<char>) -> Seq<char>
    decreases modules.len(),
{
    if modules.len() == 0 {
        Seq::<char>::empty()
    } else {
        module_lines(modules.drop_last(), course) + items_lines(modules.last().items@, course)
    }
}

/// The whole listing: each configured course's lines, in configured order,
/// labelled with that course's display name.
pub open spec fn listing_of(courses: Seq<Course>, data: Seq<Vec<ModuleData>>) -> Seq<char>
    decreases courses.len(),
{
    if courses.len() == 0 || data.len() == 0 {
        Seq::<char>::empty()
    } else {
        listing_of(courses.drop_last(), data.drop_last()) + module_lines(
            data.last()@,
            courses.last().name@,
        )
    }
}

/// Serializes one item's line: the three fields joined by the separator,
/// newline-terminated.
pub fn format_line(title: &str, link: &str, course: &str) -> (r: String)
    ensures
        r@ == line_of(title@, link@, course@),
{
    let mut r = title.to_owned();
    r.append(" || ");
    r.append(link);
    r.append(" || ");
    r.append(course);
    r.append("\n");
    proof {
        assert(r@ =~= line_of(title@, link@, course@));
    }
    r
}

/// Appends what one item contributes: its line when both fields are present,
/// nothing otherwise.
pub fn append_entry(buf: &mut String, entry: &PageEntry, course: &str)
    ensures
        final(buf)@ == old(buf)@ + entry_lines(*entry, course@),
{
    match &entry.title {
        Some(title) => match &entry.link {
            Some(link) => {
                buf.append(title.as_str());
                buf.append(" || ");
                buf.append(link.as_str());
                buf.append(" || ");
                buf.append(course);
                buf.append("\n");
                proof {
                    assert(buf@ =~= old(buf)@ + entry_lines(*entry, course@));
                }
            },
            None => {
                proof {
                    assert(buf@ =~= old(buf)@ + entry_lines(*entry, course@));
                }
            },
        },
        None => {
            proof {
                assert(buf@ =~= old(buf)@ + entry_lines(*entry, course@));
            }
        },
    }
}

/// Appends one module's items, in the order the remote API returned them.
pub fn append_module(buf: &mut String, module: &ModuleData, course: &str)
    ensures
        final(buf)@ == old(buf)@ + items_lines(module.items@, course@),
{
    let n = module.items.len();
    let mut i: usize = 0;
    while i < n
        invariant
            i <= n,
            n == module.items@.len(),
            buf@ == old(buf)@ + items_lines(module.items@.take(i as int), course@),
        decreases n - i,
    {
        append_entry(buf, &module.items[i], course);
        proof {
            let taken = module.items@.take(i + 1);
            assert(taken.drop_last() =~= module.items@.take(i as int));
            assert(taken.last() == module.items@[i as int]);
            assert(buf@ =~= old(buf)@ + items_lines(taken, course@));
        }
        i += 1;
    }
    proof {
        assert(module.items@.take(module.items@.len() as int) =~= module.items@);
    }
}

/// Appends one course's contribution: every module's items, modules in the
/// order the remote API returned them.
pub fn append_course(buf: &mut String, modules: &Vec<ModuleData>, course: &str)
    ensures
        final(buf)@ == old(buf)@ + module_lines(modules@, course@),
{
    let n = modules.len();
    let mut i: usize = 0;
    while i < n
        invariant
            i <= n,
            n == modules@.len(),
            buf@ == old(buf)@ + module_lines(modules@.take(i as int), course@),
        decreases n - i,
    {
        append_module(buf, &modules[i], course);
        proof {
            let taken = modules@.take(i + 1);
            assert(taken.drop_last() =~= modules@.take(i as int));
            assert(taken.last() == modules@[i as int]);
            assert(buf@ =~= old(buf)@ + module_lines(taken, course@));
        }
        i += 1;
    }
    proof {
        assert(modules@.take(modules@.len() as int) =~= modules@);
    }
}

/// Builds the whole listing from the configured courses and each course's
/// fetched modules, given positionally: `data[i]` is what the remote API
/// returned for `courses[i]`.
pub fn build_listing(courses: &Vec<Course>, data: &Vec<Vec<ModuleData>>) -> (r: String)
    requires
        courses@.len() == data@.len(),
    ensures
        r@ == listing_of(courses@, data@),
{
    let n = courses.len();
    let mut buf = String::new();
    let mut i: usize = 0;
    while i < n
        invariant
            i <= n,
            n == courses@.len(),
            n == data@.len(),
            buf@ == listing_of(courses@.take(i as int), data@.take(i as int)),
        decreases n - i,
    {
        append_course(&mut buf, &data[i], courses[i].name.as_str());
        proof {
            let ctaken = courses@.take(i + 1);
            let dtaken = data@.take(i + 1);
            assert(ctaken.drop_last() =~= courses@.take(i as int));
            assert(dtaken.drop_last() =~= data@.take(i as int));
            assert(ctaken.last() == courses@[i as int]);
            assert(dtaken.last() == data@[i as int]);
            assert(buf@ =~= listing_of(ctaken, dtaken));
        }
        i += 1;
    }
    proof {
        assert(courses@.take(courses@.len() as int) =~= courses@);
        assert(data@.take(data@.len() as int) =~= data@);
    }
    buf
}

/// An item lacking a title or lacking a link contributes nothing to the
/// listing; one with both present contributes exactly its serialized line,
/// with the field values untouched.
pub proof fn lemma_partial_item_tolerance(e: PageEntry, course: Seq<char>)
    ensures
        (e.title is None || e.link is None) ==> entry_lines(e, course) == Seq::<char>::empty(),
        (e.title is Some && e.link is Some) ==> entry_lines(e, course) == line_of(
            e.title.unwrap()@,
            e.link.unwrap()@,
            course,
        ),
{
}

/// Aggregation is order-preserving: the listing of one course configuration
/// followed by another is the first configuration's listing followed by the
/// second's, so every item of an earlier-configured course precedes every
/// item of a later-configured one.
pub proof fn lemma_aggregation_order(
    c1: Seq<Course>,
    d1: Seq<Vec<ModuleData>>,
    c2: Seq<Course>,
    d2: Seq<Vec<ModuleData>>,
)
    requires
        c1.len() == d1.len(),
        c2.len() == d2.len(),
    ensures
        listing_of(c1 + c2, d1 + d2) == listing_of(c1, d1) + listing_of(c2, d2),
    decreases c2.len(),
{
    if c2.len() == 0 {
        assert(c1 + c2 =~= c1);
        assert(d1 + d2 =~= d1);
        assert(listing_of(c1, d1) + listing_of(c2, d2) =~= listing_of(c1, d1));
    } else {
        lemma_aggregation_order(c1, d1, c2.drop_last(), d2.drop_last());
        assert((c1 + c2).drop_last() =~= c1 + c2.drop_last());
        assert((d1 + d2).drop_last() =~= d1 + d2.drop_last());
        assert((c1 + c2).last() == c2.last());
        assert((d1 + d2).last() == d2.last());
        assert(listing_of(c1 + c2, d1 + d2) =~= listing_of(c1, d1) + listing_of(c2, d2));
    }
}

} // verus!
