//! Saved monitor layouts that mention a virtual monitor.
//!
//! Mutter reuses the serials of virtual monitors, so a layout that was saved for an
//! older one matches a new one. Where the mode it pins does not exist any more the
//! compositor crashes. Such layouts are dropped; those of real monitors are kept.

use vstd::prelude::*;
use vstd::slice::slice_subrange;

use crate::mutter::patched::{find_user_dir, user_dir, DirVar, UserDir};
use crate::text::{chars_of, contains, find, first_occurs_at, occurs_at, string_of};

verus! {

/// What opens a layout.
pub open spec fn opening() -> Seq<char> {
    "<configuration>"@
}

/// What closes a layout.
pub open spec fn closing() -> Seq<char> {
    "</configuration>"@
}

/// Where `part` first stands in `text`.
pub open spec fn position(text: Seq<char>, part: Seq<char>) -> Option<int> {
    if contains(text, part) {
        Some(choose|i: int| first_occurs_at(text, part, i))
    } else {
        None
    }
}

/// The first layout of a text: where it starts and where it ends.
pub open spec fn next_layout(text: Seq<char>) -> Option<(int, int)> {
    match position(text, opening()) {
        None => None,
        Some(start) => match position(text.skip(start), closing()) {
            None => None,
            Some(length) => Some((start, start + length + closing().len())),
        },
    }
}

/// The layout is one of a virtual monitor.
pub open spec fn is_virtual_layout(layout: Seq<char>) -> bool {
    contains(layout, "MetaVendor"@) || contains(layout, "Virtual remote monitor"@)
}

/// Without the blanks and tabs at its end.
pub open spec fn without_blanks(text: Seq<char>) -> Seq<char>
    decreases text.len(),
{
    if text.len() > 0 && (text.last() == ' ' || text.last() == '\t') {
        without_blanks(text.drop_last())
    } else {
        text
    }
}

/// Without the line feed at its start.
pub open spec fn without_line_feed(text: Seq<char>) -> Seq<char> {
    if text.len() > 0 && text[0] == '\n' {
        text.skip(1)
    } else {
        text
    }
}

/// A text without its virtual layouts, and how many it had. Each goes with the blanks
/// before it and the line feed after it.
pub open spec fn purged(text: Seq<char>) -> (Seq<char>, nat)
    decreases text.len(),
{
    proof {
        lemma_next_layout(text);
    }
    match next_layout(text) {
        None => (text, 0),
        Some((start, end)) => if is_virtual_layout(text.subrange(start, end)) {
            let rest = purged(without_line_feed(text.skip(end)));
            (without_blanks(text.take(start)) + rest.0, rest.1 + 1)
        } else {
            let rest = purged(text.skip(end));
            (text.take(end) + rest.0, rest.1)
        },
    }
}

/// The layouts of a text, in order.
pub open spec fn layouts(text: Seq<char>) -> Seq<Seq<char>>
    decreases text.len(),
{
    proof {
        lemma_next_layout(text);
    }
    match next_layout(text) {
        None => Seq::empty(),
        Some((start, end)) => seq![text.subrange(start, end)] + layouts(text.skip(end)),
    }
}

proof fn lemma_first_is_unique(text: Seq<char>, part: Seq<char>, i: int)
    requires
        first_occurs_at(text, part, i),
    ensures
        position(text, part) == Some(i),
{
    assert(contains(text, part));
    let j = choose|j: int| first_occurs_at(text, part, j);
    assert(first_occurs_at(text, part, j));
    if j < i {
        assert(!occurs_at(text, part, j));
    } else if i < j {
        assert(!occurs_at(text, part, i));
    }
}

/// Where a part occurs there is a first place.
proof fn lemma_position(text: Seq<char>, part: Seq<char>)
    ensures
        match position(text, part) {
            Some(i) => first_occurs_at(text, part, i),
            None => !contains(text, part),
        },
{
    if contains(text, part) {
        let i = choose|i: int| occurs_at(text, part, i);
        lemma_first_from(text, part, i, 0);
    }
}

proof fn lemma_first_from(text: Seq<char>, part: Seq<char>, i: int, from: int)
    requires
        occurs_at(text, part, i),
        0 <= from <= i,
        forall|j: int| 0 <= j < from ==> !occurs_at(text, part, j),
    ensures
        exists|k: int| first_occurs_at(text, part, k),
    decreases i - from,
{
    if occurs_at(text, part, from) {
        assert(first_occurs_at(text, part, from));
    } else {
        lemma_first_from(text, part, i, from + 1);
    }
}

/// A layout lies within its text and is not empty.
pub proof fn lemma_next_layout(text: Seq<char>)
    ensures
        next_layout(text) matches Some(layout) ==> 0 <= layout.0 < layout.1 <= text.len(),
{
    reveal_strlit("</configuration>");
    lemma_position(text, opening());
    if let Some(start) = position(text, opening()) {
        lemma_position(text.skip(start), closing());
    }
}

/// Whether a layout is one of a virtual monitor.
fn virtual_layout(layout: &[char]) -> (is: bool)
    ensures
        is == is_virtual_layout(layout@),
{
    let vendor = chars_of("MetaVendor");
    let product = chars_of("Virtual remote monitor");
    let by_vendor = find(layout, vendor.as_slice());
    let by_product = find(layout, product.as_slice());
    by_vendor.is_some() || by_product.is_some()
}

/// The first layout of `text`: where it starts and where it ends.
fn find_layout(text: &[char]) -> (found: Option<(usize, usize)>)
    ensures
        match found {
            Some(f) => next_layout(text@) == Some((f.0 as int, f.1 as int)) && f.0 < f.1
                <= text@.len(),
            None => next_layout(text@) is None,
        },
{
    let open = chars_of("<configuration>");
    let close = chars_of("</configuration>");
    match find(text, open.as_slice()) {
        None => None,
        Some(start) => {
            proof {
                lemma_first_is_unique(text@, opening(), start as int);
                lemma_next_layout(text@);
            }
            let total: usize = text.len();
            let tail = slice_subrange(text, start, total);
            assert(tail@ =~= text@.skip(start as int));
            match find(tail, close.as_slice()) {
                None => None,
                Some(length) => {
                    proof {
                        lemma_first_is_unique(tail@, closing(), length as int);
                    }
                    Some((start, start + length + close.len()))
                },
            }
        },
    }
}

/// The length of `text` without the blanks and tabs at its end.
fn length_without_blanks(text: &[char]) -> (n: usize)
    ensures
        n <= text@.len(),
        text@.take(n as int) == without_blanks(text@),
{
    let mut n: usize = text.len();
    assert(text@.take(n as int) =~= text@);
    while n > 0 && (text[n - 1] == ' ' || text[n - 1] == '\t')
        invariant
            n <= text@.len(),
            without_blanks(text@.take(n as int)) == without_blanks(text@),
        decreases n,
    {
        assert(text@.take(n as int).drop_last() =~= text@.take(n - 1));
        n -= 1;
    }
    n
}

fn push_range(kept: &mut Vec<char>, text: &[char], start: usize, end: usize)
    requires
        start <= end <= text@.len(),
    ensures
        final(kept)@ == old(kept)@ + text@.subrange(start as int, end as int),
{
    let mut i: usize = start;
    let ghost before = kept@;
    assert(before + text@.subrange(start as int, start as int) =~= before);
    while i < end
        invariant
            start <= i <= end <= text@.len(),
            kept@ == before + text@.subrange(start as int, i as int),
        decreases end - i,
    {
        kept.push(text[i]);
        assert(text@.subrange(start as int, i + 1) =~= text@.subrange(start as int, i as int).push(
            text@[i as int],
        ));
        i += 1;
    }
}

/// A text without its virtual layouts, and how many it had.
#[derive(Debug, Clone)]
pub struct Purged {
    pub text: String,
    pub removed: usize,
}

/// Drops saved layouts that mention a virtual monitor.
pub fn purge_saved_virtual_layouts(text: &str) -> (result: Purged)
    ensures
        result.text@ == purged(text@).0,
        result.removed == purged(text@).1,
{
    let chars = chars_of(text);
    let total: usize = chars.len();
    let mut kept: Vec<char> = Vec::new();
    let mut removed: usize = 0;
    let mut from: usize = 0;
    assert(text@.skip(0) =~= text@);
    assert(Seq::<char>::empty() + purged(text@).0 =~= purged(text@).0);
    proof {
        if total == 0 {
            lemma_empty_is_kept(text@);
        }
    }
    while from < total
        invariant_except_break
            kept@ + purged(text@.skip(from as int)).0 == purged(text@).0,
            removed + purged(text@.skip(from as int)).1 == purged(text@).1,
            from == total ==> purged(text@.skip(from as int)) == (text@.skip(from as int), 0nat),
        invariant
            chars@ == text@,
            total == text@.len(),
            from <= total,
            removed <= from,
        ensures
            kept@ + text@.skip(from as int) == purged(text@).0,
            removed == purged(text@).1,
        decreases total - from,
    {
        let ghost rest = text@.skip(from as int);
        let tail = slice_subrange(chars.as_slice(), from, total);
        assert(tail@ =~= rest);
        proof {
            lemma_next_layout(rest);
        }
        let (start, end) = match find_layout(tail) {
            None => {
                break;
            },
            Some(found) => found,
        };
        let ghost before = kept@;
        let layout = slice_subrange(tail, start, end);
        if virtual_layout(layout) {
            let head = slice_subrange(tail, 0, start);
            assert(head@ =~= rest.take(start as int));
            let n: usize = length_without_blanks(head);
            push_range(&mut kept, head, 0, n);
            assert(head@.subrange(0, n as int) =~= head@.take(n as int));
            removed += 1;
            let ghost after = rest.skip(end as int);
            from += end;
            assert(text@.skip(from as int) =~= after);
            if from < total && chars[from] == '\n' {
                from += 1;
                assert(text@.skip(from as int) =~= after.skip(1));
            }
            assert(text@.skip(from as int) == without_line_feed(after));
            assert(kept@ + purged(text@.skip(from as int)).0 =~= before + purged(rest).0);
        } else {
            push_range(&mut kept, tail, 0, end);
            assert(rest.subrange(0, end as int) =~= rest.take(end as int));
            from += end;
            assert(text@.skip(from as int) =~= rest.skip(end as int));
            assert(kept@ + purged(text@.skip(from as int)).0 =~= before + purged(rest).0);
        }
        proof {
            if from == total {
                lemma_empty_is_kept(text@.skip(from as int));
            }
        }
    }
    push_range(&mut kept, chars.as_slice(), from, total);
    assert(chars@.subrange(from as int, total as int) =~= text@.skip(from as int));
    Purged { text: string_of(kept.as_slice()), removed }
}

/// What is done to the file of saved layouts.
#[derive(Debug, Clone, Copy, PartialEq, Eq, Structural)]
pub struct PurgePlan {
    /// The file is copied first.
    pub backup: bool,
    /// The file is written anew.
    pub write: bool,
}

/// A file from which nothing was dropped is left alone. The first one that is written
/// anew is kept as a backup, and that backup stays.
pub open spec fn purge_plan(removed: nat, backup_exists: bool) -> PurgePlan {
    PurgePlan { backup: removed > 0 && !backup_exists, write: removed > 0 }
}

/// Decides what is done to the file from which `removed` layouts were dropped.
pub fn plan_purge(removed: usize, backup_exists: bool) -> (plan: PurgePlan)
    ensures
        plan == purge_plan(removed as nat, backup_exists),
{
    PurgePlan { backup: removed > 0 && !backup_exists, write: removed > 0 }
}

/// How many layouts are gone: none, where the file could not be written.
pub fn purge_result(removed: usize, written: bool) -> (gone: usize)
    ensures
        gone == if written {
            removed
        } else {
            0
        },
{
    if written {
        removed
    } else {
        0
    }
}

proof fn lemma_empty_is_kept(text: Seq<char>)
    requires
        text.len() == 0,
    ensures
        purged(text) == (text, 0nat),
{
    lemma_next_layout(text);
}

/// The directory in which layouts are saved. An XDG variable that is empty counts as
/// unset.
pub fn config_dir(xdg_config_home: DirVar, home: DirVar) -> (base: UserDir)
    ensures
        base == user_dir(xdg_config_home, home),
{
    find_user_dir(xdg_config_home, home)
}

/// Where nothing is dropped the text stays as it is.
pub proof fn law_nothing_dropped_nothing_changed(text: Seq<char>)
    requires
        purged(text).1 == 0,
    ensures
        purged(text).0 == text,
    decreases text.len(),
{
    lemma_next_layout(text);
    if let Some((start, end)) = next_layout(text) {
        law_nothing_dropped_nothing_changed(text.skip(end));
        assert(text.take(end) + text.skip(end) =~= text);
    }
}

/// Dropping layouts never makes a text longer, and makes it shorter by at least the
/// tags of each layout that is dropped.
pub proof fn law_dropping_shortens(text: Seq<char>)
    ensures
        purged(text).0.len() + purged(text).1 * (opening().len() + closing().len()) <= text.len(),
    decreases text.len(),
{
    lemma_next_layout(text);
    let n = opening().len() + closing().len();
    if let Some((start, end)) = next_layout(text) {
        lemma_layouts_hold_their_tags(text);
        if is_virtual_layout(text.subrange(start, end)) {
            let rest = without_line_feed(text.skip(end));
            law_dropping_shortens(rest);
            lemma_without_blanks(text.take(start));
            assert((purged(rest).1 + 1) * n == purged(rest).1 * n + n) by (nonlinear_arith);
        } else {
            law_dropping_shortens(text.skip(end));
        }
    } else {
        assert(0 * n == 0);
    }
}

/// A layout is at least as long as the tags around it.
proof fn lemma_layouts_hold_their_tags(text: Seq<char>)
    ensures
        next_layout(text) matches Some(layout) ==> layout.1 - layout.0 >= opening().len()
            + closing().len(),
{
    if let Some((start, end)) = next_layout(text) {
        lemma_position(text, opening());
        lemma_position(text.skip(start), closing());
        reveal_strlit("<configuration>");
        reveal_strlit("</configuration>");
        let tail = text.skip(start);
        let length = position(tail, closing())->0;
        assert(tail.subrange(0, opening().len() as int) =~= text.subrange(
            start,
            start + opening().len(),
        ));
        let close = tail.subrange(length, length + closing().len());
        if length < opening().len() {
            assert(tail.subrange(0, opening().len() as int)[length] == opening()[length]);
            assert(close[0] == tail[length] && closing()[0] == '<');
            assert(length == 0);
            assert(tail.subrange(0, opening().len() as int)[1] == opening()[1]);
            assert(close[1] == tail[1] && closing()[1] == '/');
        }
    }
}

proof fn lemma_without_blanks(text: Seq<char>)
    ensures
        without_blanks(text).len() <= text.len(),
        without_blanks(text) == text.take(without_blanks(text).len() as int),
    decreases text.len(),
{
    if text.len() > 0 && (text.last() == ' ' || text.last() == '\t') {
        lemma_without_blanks(text.drop_last());
        let n = without_blanks(text).len() as int;
        assert(text.drop_last().take(n) =~= text.take(n));
    } else {
        assert(text.take(text.len() as int) =~= text);
    }
}

/// What stands in the second part stands in the whole.
proof fn lemma_contains_in_tail(a: Seq<char>, b: Seq<char>, part: Seq<char>)
    requires
        contains(b, part),
    ensures
        contains(a + b, part),
{
    let i = choose|i: int| occurs_at(b, part, i);
    assert((a + b).subrange(a.len() + i, a.len() + i + part.len()) =~= b.subrange(
        i,
        i + part.len(),
    ));
    assert(occurs_at(a + b, part, a.len() + i));
}

/// The line feed after a layout is no part of the next one.
proof fn lemma_line_feed_before_layouts(text: Seq<char>)
    ensures
        layouts(without_line_feed(text)) == layouts(text),
{
    if text.len() > 0 && text[0] == '\n' {
        let rest = text.skip(1);
        let head = seq!['\n'];
        assert(head + rest =~= text);
        reveal_strlit("<configuration>");
        lemma_no_occurrence_at(head, rest, opening());
        lemma_next_layout_after(head, rest);
        lemma_next_layout(rest);
        if let Some((start, end)) = next_layout(rest) {
            assert(text.subrange(start + 1, end + 1) =~= rest.subrange(start, end));
            assert(text.skip(end + 1) =~= rest.skip(end));
        }
    }
}

/// A text whose first character differs from that of `part` does not start with it.
proof fn lemma_no_occurrence_at(head: Seq<char>, rest: Seq<char>, part: Seq<char>)
    requires
        head.len() == 1,
        part.len() > 0,
        head[0] != part[0],
    ensures
        forall|i: int| 0 <= i < head.len() ==> !occurs_at(head + rest, part, i),
{
    assert forall|i: int| 0 <= i < head.len() implies !occurs_at(head + rest, part, i) by {
        if occurs_at(head + rest, part, i) {
            assert((head + rest).subrange(i, i + part.len())[0] == head[0]);
        }
    }
}

/// Text in which no layout starts only shifts the one that follows.
proof fn lemma_next_layout_after(head: Seq<char>, rest: Seq<char>)
    requires
        forall|i: int| 0 <= i < head.len() ==> !occurs_at(head + rest, opening(), i),
    ensures
        next_layout(head + rest) == match next_layout(rest) {
            Some((start, end)) => Some((head.len() + start, head.len() + end)),
            None => None,
        },
{
    let whole = head + rest;
    assert forall|i: int| 0 <= i implies occurs_at(whole, opening(), head.len() + i) == occurs_at(
        rest,
        opening(),
        i,
    ) by {
        if i + opening().len() <= rest.len() {
            assert(whole.subrange(head.len() + i, head.len() + i + opening().len())
                =~= rest.subrange(i, i + opening().len()));
        }
    }
    lemma_position(whole, opening());
    lemma_position(rest, opening());
    match position(rest, opening()) {
        Some(start) => {
            assert(occurs_at(whole, opening(), head.len() + start));
            assert forall|j: int| 0 <= j < head.len() + start implies !occurs_at(
                whole,
                opening(),
                j,
            ) by {
                if j >= head.len() {
                    assert(!occurs_at(rest, opening(), j - head.len()));
                    assert(occurs_at(whole, opening(), head.len() + (j - head.len())) == occurs_at(
                        rest,
                        opening(),
                        j - head.len(),
                    ));
                }
            }
            lemma_first_is_unique(whole, opening(), head.len() + start);
            assert(whole.skip(head.len() + start) =~= rest.skip(start));
        },
        None => {
            if contains(whole, opening()) {
                let i = choose|i: int| occurs_at(whole, opening(), i);
                assert(occurs_at(whole, opening(), head.len() + (i - head.len())) == occurs_at(
                    rest,
                    opening(),
                    i - head.len(),
                ));
                assert(contains(rest, opening()));
            }
        },
    }
}

/// Every layout of real monitors is kept.
pub proof fn law_real_layouts_are_kept(text: Seq<char>, i: int)
    requires
        0 <= i < layouts(text).len(),
        !is_virtual_layout(layouts(text)[i]),
    ensures
        contains(purged(text).0, layouts(text)[i]),
    decreases text.len(),
{
    lemma_next_layout(text);
    let (start, end) = next_layout(text)->0;
    let layout = text.subrange(start, end);
    if is_virtual_layout(layout) {
        let after = text.skip(end);
        let rest = without_line_feed(after);
        lemma_line_feed_before_layouts(after);
        assert(layouts(text)[i] == layouts(rest)[i - 1]);
        law_real_layouts_are_kept(rest, i - 1);
        lemma_contains_in_tail(
            without_blanks(text.take(start)),
            purged(rest).0,
            layouts(rest)[i - 1],
        );
    } else {
        let rest = text.skip(end);
        if i == 0 {
            assert(purged(text).0.subrange(start, start + layout.len()) =~= layout);
            assert(occurs_at(purged(text).0, layout, start));
        } else {
            assert(layouts(text)[i] == layouts(rest)[i - 1]);
            law_real_layouts_are_kept(rest, i - 1);
            lemma_contains_in_tail(text.take(end), purged(rest).0, layouts(rest)[i - 1]);
        }
    }
}

/// As many layouts are dropped as there are virtual ones.
pub proof fn law_virtual_layouts_are_counted(text: Seq<char>)
    ensures
        purged(text).1 == layouts(text).filter(|layout: Seq<char>| is_virtual_layout(layout)).len(),
    decreases text.len(),
{
    reveal_with_fuel(Seq::filter, 2);
    lemma_next_layout(text);
    let virtual_ones = |layout: Seq<char>| is_virtual_layout(layout);
    if let Some((start, end)) = next_layout(text) {
        let layout = text.subrange(start, end);
        let after = text.skip(end);
        let first = seq![layout];
        Seq::filter_distributes_over_add(first, layouts(after), virtual_ones);
        assert(first.drop_last() =~= Seq::empty());
        assert(first.filter(virtual_ones) =~= if is_virtual_layout(layout) {
            first
        } else {
            Seq::empty()
        });
        if is_virtual_layout(layout) {
            lemma_line_feed_before_layouts(after);
            law_virtual_layouts_are_counted(without_line_feed(after));
        } else {
            law_virtual_layouts_are_counted(after);
        }
    }
}

/// Dropping layouts does not bring the halves of an opening tag together.
pub open spec fn joins_cleanly(text: Seq<char>) -> bool
    decreases text.len(),
{
    proof {
        lemma_next_layout(text);
    }
    match next_layout(text) {
        None => true,
        Some((start, end)) => if is_virtual_layout(text.subrange(start, end)) {
            let head = without_blanks(text.take(start));
            let rest = without_line_feed(text.skip(end));
            &&& joins_cleanly(rest)
            &&& forall|i: int|
                head.len() - opening().len() < i < head.len() ==> !occurs_at(
                    head + purged(rest).0,
                    opening(),
                    i,
                )
        } else {
            joins_cleanly(text.skip(end))
        },
    }
}

/// Once virtual layouts have been dropped there is none left, unless dropping one
/// brought the halves of a tag together.
pub proof fn law_no_virtual_layout_is_left(text: Seq<char>)
    requires
        joins_cleanly(text),
    ensures
        purged(purged(text).0) == (purged(text).0, 0nat),
    decreases text.len(),
{
    lemma_next_layout(text);
    if let Some((start, end)) = next_layout(text) {
        lemma_position(text, opening());
        lemma_position(text.skip(start), closing());
        let layout = text.subrange(start, end);
        if is_virtual_layout(layout) {
            let head = without_blanks(text.take(start));
            let rest = without_line_feed(text.skip(end));
            let kept = purged(rest).0;
            law_no_virtual_layout_is_left(rest);
            lemma_without_blanks(text.take(start));
            let whole = head + kept;
            assert forall|i: int| 0 <= i < head.len() implies !occurs_at(whole, opening(), i) by {
                if occurs_at(whole, opening(), i) && i + opening().len() <= head.len() {
                    assert(whole.subrange(i, i + opening().len()) =~= text.subrange(
                        i,
                        i + opening().len(),
                    ));
                    assert(occurs_at(text, opening(), i));
                }
            }
            lemma_purged_after(head, kept);
        } else {
            let rest = text.skip(end);
            let kept = purged(rest).0;
            law_no_virtual_layout_is_left(rest);
            lemma_kept_layout(text, kept);
        }
    }
}

/// Every tag is closed before the next one begins.
pub open spec fn tags_are_closed(text: Seq<char>) -> bool {
    forall|i: int, j: int|
        #![trigger text[i], text[j]]
        0 <= i < j < text.len() && text[i] == '<' && text[j] == '<' ==> closed_between(text, i, j)
}

/// A tag is closed somewhere between the two places.
pub open spec fn closed_between(text: Seq<char>, i: int, j: int) -> bool {
    exists|k: int| i < k < j && text[k] == '>'
}

/// In a text whose tags are all closed no halves of a tag can come together.
pub proof fn law_closed_tags_join_cleanly(text: Seq<char>)
    requires
        tags_are_closed(text),
    ensures
        joins_cleanly(text),
    decreases text.len(),
{
    lemma_next_layout(text);
    if let Some((start, end)) = next_layout(text) {
        let after = text.skip(end);
        lemma_closed_tags_of_a_tail(text, end);
        if is_virtual_layout(text.subrange(start, end)) {
            let rest = without_line_feed(after);
            lemma_closed_tags_of_a_tail(after, 1);
            law_closed_tags_join_cleanly(rest);
            lemma_position(text, opening());
            reveal_strlit("<configuration>");
            assert(text.subrange(start, start + opening().len())[0] == text[start]);
            let before = text.take(start);
            let head = without_blanks(before);
            lemma_without_blanks(before);
            lemma_trimmed_are_blanks(before);
            let whole = head + purged(rest).0;
            assert forall|i: int|
                head.len() - opening().len() < i < head.len() implies !occurs_at(
                whole,
                opening(),
                i,
            ) by {
                if occurs_at(whole, opening(), i) {
                    let found = whole.subrange(i, i + opening().len());
                    assert(found[0] == whole[i] && whole[i] == head[i]);
                    assert(head[i] == before[i] && before[i] == text[i]);
                    assert(closed_between(text, i, start));
                    let k = choose|k: int| i < k < start && text[k] == '>';
                    assert(before[k] == '>');
                    if k < head.len() {
                        assert(head[k] == before[k] && whole[k] == head[k]);
                        assert(found[k - i] == whole[k]);
                        assert(opening()[k - i] == '>');
                    }
                }
            }
        } else {
            law_closed_tags_join_cleanly(after);
        }
    }
}

proof fn lemma_closed_tags_of_a_tail(text: Seq<char>, from: int)
    requires
        tags_are_closed(text),
    ensures
        0 <= from <= text.len() ==> tags_are_closed(text.skip(from)),
{
    if 0 <= from <= text.len() {
        let tail = text.skip(from);
        assert forall|i: int, j: int|
            #![trigger tail[i], tail[j]]
            0 <= i < j < tail.len() && tail[i] == '<' && tail[j] == '<' implies closed_between(
            tail,
            i,
            j,
        ) by {
            assert(tail[i] == text[from + i] && tail[j] == text[from + j]);
            let k = choose|k: int| from + i < k < from + j && text[k] == '>';
            assert(tail[k - from] == '>');
        }
    }
}

/// What is trimmed off the end is blanks and tabs.
proof fn lemma_trimmed_are_blanks(text: Seq<char>)
    ensures
        forall|k: int|
            without_blanks(text).len() <= k < text.len() ==> text[k] == ' ' || text[k] == '\t',
    decreases text.len(),
{
    if text.len() > 0 && (text.last() == ' ' || text.last() == '\t') {
        let shorter = text.drop_last();
        lemma_trimmed_are_blanks(shorter);
        assert forall|k: int| without_blanks(text).len() <= k < text.len() implies text[k] == ' '
            || text[k] == '\t' by {
            if k < shorter.len() {
                assert(shorter[k] == text[k]);
            }
        }
    }
}

/// The file of saved layouts and its backup.
#[verifier::ext_equal]
pub struct SavedLayouts {
    pub text: Seq<char>,
    pub backup: Option<Seq<char>>,
}

impl SavedLayouts {
    pub open spec fn plan(self) -> PurgePlan {
        purge_plan(purged(self.text).1, self.backup is Some)
    }

    /// The files once the plan was carried out.
    pub open spec fn purged(self) -> SavedLayouts {
        SavedLayouts {
            text: if self.plan().write {
                purged(self.text).0
            } else {
                self.text
            },
            backup: if self.plan().backup {
                Some(self.text)
            } else {
                self.backup
            },
        }
    }
}

/// A file without virtual layouts is neither written nor copied; a backup is never
/// overwritten, and the first one holds the file as it was before anything was dropped;
/// and of a file whose tags are all closed a second purge drops nothing.
pub proof fn law_purging_touches_leftovers_only(files: SavedLayouts)
    ensures
        (forall|i: int|
            0 <= i < layouts(files.text).len() ==> !is_virtual_layout(
                #[trigger] layouts(files.text)[i],
            )) ==> purged(files.text).1 == 0 && !files.plan().write && !files.plan().backup
            && files.purged() == files,
        files.backup is Some ==> !files.plan().backup && files.purged().backup == files.backup,
        files.plan().write ==> files.purged().text == purged(files.text).0
            && files.purged().backup is Some,
        files.plan().write && files.backup is None ==> files.purged().backup == Some(files.text),
        tags_are_closed(files.text) ==> !files.purged().plan().write
            && !files.purged().plan().backup && files.purged().purged() == files.purged(),
{
    let all = layouts(files.text);
    law_virtual_layouts_are_counted(files.text);
    if forall|i: int| 0 <= i < all.len() ==> !is_virtual_layout(#[trigger] all[i]) {
        lemma_no_virtual_ones(all);
    }
    if tags_are_closed(files.text) {
        law_closed_tags_join_cleanly(files.text);
        law_no_virtual_layout_is_left(files.text);
    }
}

proof fn lemma_no_virtual_ones(all: Seq<Seq<char>>)
    requires
        forall|i: int| 0 <= i < all.len() ==> !is_virtual_layout(#[trigger] all[i]),
    ensures
        all.filter(|layout: Seq<char>| is_virtual_layout(layout)).len() == 0,
    decreases all.len(),
{
    reveal(Seq::filter);
    if all.len() > 0 {
        let before = all.drop_last();
        assert forall|i: int| 0 <= i < before.len() implies !is_virtual_layout(
            #[trigger] before[i],
        ) by {
            assert(before[i] == all[i]);
        }
        lemma_no_virtual_ones(before);
        assert(!is_virtual_layout(all[all.len() - 1]));
    }
}

/// Text in which no layout starts is kept as it is.
proof fn lemma_purged_after(head: Seq<char>, rest: Seq<char>)
    requires
        forall|i: int| 0 <= i < head.len() ==> !occurs_at(head + rest, opening(), i),
        purged(rest) == (rest, 0nat),
    ensures
        purged(head + rest) == (head + rest, 0nat),
{
    let whole = head + rest;
    lemma_next_layout_after(head, rest);
    lemma_next_layout(rest);
    if let Some((start, end)) = next_layout(rest) {
        let n = head.len() as int;
        assert(whole.subrange(n + start, n + end) =~= rest.subrange(start, end));
        assert(whole.skip(n + end) =~= rest.skip(end));
        if is_virtual_layout(rest.subrange(start, end)) {
            assert(purged(rest).1 > 0);
        } else {
            law_nothing_dropped_nothing_changed(rest.skip(end));
            assert(whole.take(n + end) + whole.skip(n + end) =~= whole);
        }
    }
}

/// A layout that is kept is found again, whatever follows it.
proof fn lemma_kept_layout(text: Seq<char>, kept: Seq<char>)
    requires
        next_layout(text) is Some,
        !is_virtual_layout(text.subrange((next_layout(text)->0).0, (next_layout(text)->0).1)),
        purged(kept) == (kept, 0nat),
    ensures
        ({
            let whole = text.take((next_layout(text)->0).1) + kept;
            purged(whole) == (whole, 0nat)
        }),
{
    lemma_next_layout(text);
    let (start, end) = next_layout(text)->0;
    let whole = text.take(end) + kept;
    lemma_position(text, opening());
    lemma_position(text.skip(start), closing());
    let length = position(text.skip(start), closing())->0;
    reveal_strlit("<configuration>");
    reveal_strlit("</configuration>");
    assert forall|i: int| i + opening().len() <= end implies occurs_at(whole, opening(), i)
        == occurs_at(text, opening(), i) by {
        if 0 <= i {
            assert(whole.subrange(i, i + opening().len()) =~= text.subrange(
                i,
                i + opening().len(),
            ));
        }
    }
    assert(occurs_at(whole, opening(), start));
    assert(first_occurs_at(whole, opening(), start)) by {
        assert forall|j: int| 0 <= j < start implies !occurs_at(whole, opening(), j) by {
            assert(!occurs_at(text, opening(), j));
        }
    }
    lemma_first_is_unique(whole, opening(), start);
    let a = text.skip(start);
    let b = whole.skip(start);
    assert forall|i: int| i + closing().len() <= end - start implies occurs_at(b, closing(), i)
        == occurs_at(a, closing(), i) by {
        if 0 <= i {
            assert(b.subrange(i, i + closing().len()) =~= a.subrange(i, i + closing().len()));
        }
    }
    assert(first_occurs_at(b, closing(), length)) by {
        assert(occurs_at(a, closing(), length));
        assert forall|j: int| 0 <= j < length implies !occurs_at(b, closing(), j) by {
            assert(!occurs_at(a, closing(), j));
        }
    }
    lemma_first_is_unique(b, closing(), length);
    assert(next_layout(whole) == Some((start, end)));
    assert(whole.subrange(start, end) =~= text.subrange(start, end));
    assert(whole.skip(end) =~= kept);
    assert(whole.take(end) =~= text.take(end));
}

/// A layout reaches from the first opening tag to the end of the first closing tag behind
/// it.
pub proof fn law_a_layout_lies_between_its_tags(text: Seq<char>, start: int, end: int)
    ensures
        next_layout(text) == Some((start, end)) <==> {
            &&& first_occurs_at(text, "<configuration>"@, start)
            &&& first_occurs_at(text.skip(start), "</configuration>"@, end - start - 16)
        },
{
    reveal_strlit("<configuration>");
    reveal_strlit("</configuration>");
    lemma_position(text, opening());
    if first_occurs_at(text, opening(), start) {
        lemma_first_is_unique(text, opening(), start);
        lemma_position(text.skip(start), closing());
        if first_occurs_at(text.skip(start), closing(), end - start - 16) {
            lemma_first_is_unique(text.skip(start), closing(), end - start - 16);
        }
    }
}

/// The layouts of virtual monitors are those that name their vendor or their product.
pub proof fn law_virtual_monitors_are_known_by_name(layout: Seq<char>)
    ensures
        is_virtual_layout(layout) <==> exists|i: int|
            occurs_at(layout, "MetaVendor"@, i) || occurs_at(
                layout,
                "Virtual remote monitor"@,
                i,
            ),
{
    if is_virtual_layout(layout) {
        if contains(layout, "MetaVendor"@) {
            let i = choose|i: int| occurs_at(layout, "MetaVendor"@, i);
            assert(occurs_at(layout, "MetaVendor"@, i));
        } else {
            let i = choose|i: int| occurs_at(layout, "Virtual remote monitor"@, i);
            assert(occurs_at(layout, "Virtual remote monitor"@, i));
        }
    }
}

/// A virtual layout goes with the blanks and tabs right before it and one line feed right
/// behind it. What stands before these stays as it is, and so does all that is behind, up
/// to the next virtual layout.
pub proof fn law_a_layout_goes_with_its_line(text: Seq<char>, kept: int, start: int, end: int)
    requires
        next_layout(text) == Some((start, end)),
        is_virtual_layout(text.subrange(start, end)),
        0 <= kept <= start,
        forall|i: int| kept <= i < start ==> #[trigger] text[i] == ' ' || text[i] == '\t',
        kept > 0 ==> text[kept - 1] != ' ' && text[kept - 1] != '\t',
    ensures
        ({
            let next = if end < text.len() && text[end] == '\n' {
                end + 1
            } else {
                end
            };
            &&& purged(text).0 == text.take(kept) + purged(text.skip(next)).0
            &&& purged(text).1 == 1 + purged(text.skip(next)).1
        }),
{
    lemma_next_layout(text);
    let before = text.take(start);
    assert forall|i: int| kept <= i < before.len() implies #[trigger] before[i] == ' ' || before[i]
        == '\t' by {
        assert(before[i] == text[i]);
    }
    if kept > 0 {
        assert(before[kept - 1] == text[kept - 1]);
    }
    lemma_trimmed_to(before, kept);
    assert(before.take(kept) =~= text.take(kept));
    let after = text.skip(end);
    if end < text.len() {
        assert(after[0] == text[end]);
        assert(after.skip(1) =~= text.skip(end + 1));
    }
}

/// Trimming stops at the last character that is no blank.
proof fn lemma_trimmed_to(text: Seq<char>, kept: int)
    requires
        0 <= kept <= text.len(),
        forall|i: int| kept <= i < text.len() ==> #[trigger] text[i] == ' ' || text[i] == '\t',
        kept > 0 ==> text[kept - 1] != ' ' && text[kept - 1] != '\t',
    ensures
        without_blanks(text) == text.take(kept),
    decreases text.len(),
{
    if kept < text.len() {
        let shorter = text.drop_last();
        assert(text[text.len() - 1] == ' ' || text[text.len() - 1] == '\t');
        assert forall|i: int| kept <= i < shorter.len() implies #[trigger] shorter[i] == ' '
            || shorter[i] == '\t' by {
            assert(shorter[i] == text[i]);
        }
        lemma_trimmed_to(shorter, kept);
        assert(shorter.take(kept) =~= text.take(kept));
    } else {
        assert(text.take(kept) =~= text);
    }
}

/// A layout of real monitors stays with all that stands before it.
pub proof fn law_a_real_layout_stays(text: Seq<char>, start: int, end: int)
    requires
        next_layout(text) == Some((start, end)),
        !is_virtual_layout(text.subrange(start, end)),
    ensures
        purged(text).0 == text.take(end) + purged(text.skip(end)).0,
        purged(text).1 == purged(text.skip(end)).1,
{
}

/// A text without layouts stays as it is.
pub proof fn law_text_without_layouts_stays(text: Seq<char>)
    requires
        next_layout(text) is None,
    ensures
        purged(text).0 == text,
        purged(text).1 == 0,
{
}

} // verus!
