//! Paths with `/` as separator: joining two, and taking a leading one off.
use crate::text::{joined_with, lemma_joined_from_first};
use vstd::prelude::*;

verus! {

/// The path `path`, taken from `base` unless it begins at the root.
pub open spec fn joined(base: Seq<char>, path: Seq<char>) -> Seq<char> {
    if path.len() > 0 && path[0] == '/' {
        path
    } else if base.len() == 0 || base.last() == '/' {
        base + path
    } else {
        base.push('/') + path
    }
}

/// Where the next separator stands, or the end of the path.
pub open spec fn separator_from(path: Seq<char>, from: int) -> int
    decreases path.len() - from,
{
    if from >= path.len() {
        path.len() as int
    } else if path[from] == '/' {
        from
    } else {
        separator_from(path, from + 1)
    }
}

/// A component that names nothing: an empty one, or the current directory.
pub open spec fn is_idle(component: Seq<char>) -> bool {
    component.len() == 0 || component == seq!['.']
}

/// Where the components behind a position begin and end, without those that name nothing.
pub open spec fn spans_from(path: Seq<char>, from: int) -> Seq<(int, int)>
    decreases path.len() + 1 - from,
    when from >= 0
{
    if from >= path.len() {
        seq![]
    } else {
        let end = separator_from(path, from);
        proof {
            lemma_separator_from(path, from);
        }
        let rest = spans_from(path, end + 1);
        if is_idle(path.subrange(from, end)) {
            rest
        } else {
            seq![(from, end)] + rest
        }
    }
}

/// The next separator is where [`separator_from`] says, and none comes before it.
pub proof fn lemma_separator_from(path: Seq<char>, from: int)
    requires
        0 <= from <= path.len(),
    ensures
        from <= separator_from(path, from) <= path.len(),
        forall|i: int| from <= i < separator_from(path, from) ==> path[i] != '/',
        separator_from(path, from) < path.len() ==> path[separator_from(path, from)] == '/',
    decreases path.len() - from,
{
    if from < path.len() && path[from] != '/' {
        lemma_separator_from(path, from + 1);
    }
}

/// The path begins with a component of its own: the root, or the current directory.
pub open spec fn has_anchor(path: Seq<char>) -> bool {
    path.len() > 0 && (path[0] == '/' || (path[0] == '.' && (path.len() == 1 || path[1] == '/')))
}

/// Where the components of a path begin and end. The current directory counts only in front.
pub open spec fn spans(path: Seq<char>) -> Seq<(int, int)> {
    if has_anchor(path) {
        seq![(0int, 1int)] + spans_from(path, 1)
    } else {
        spans_from(path, 0)
    }
}

/// The text of a component.
pub open spec fn component(path: Seq<char>, span: (int, int)) -> Seq<char> {
    path.subrange(span.0, span.1)
}

/// The components of a path.
pub open spec fn components(path: Seq<char>) -> Seq<Seq<char>> {
    spans(path).map_values(|span: (int, int)| component(path, span))
}

/// The components of `base` are the first components of `path`.
pub open spec fn leads(base: Seq<char>, path: Seq<char>) -> bool {
    &&& spans(base).len() <= spans(path).len()
    &&& forall|i: int|
        0 <= i < spans(base).len() ==> component(path, #[trigger] spans(path)[i]) == component(
            base,
            spans(base)[i],
        )
}

/// The path from `base` to `path`, where the one leads to the other: what stands between the
/// beginning of the first and the end of the last of the components behind those of `base`.
pub open spec fn below(path: Seq<char>, base: Seq<char>) -> Option<Seq<char>> {
    let rest = spans(path).skip(spans(base).len() as int);
    if !leads(base, path) {
        None
    } else if rest.len() == 0 {
        Some(seq![])
    } else {
        Some(path.subrange(rest[0].0, rest.last().1))
    }
}

/// Spans lie within the path, one behind the other.
proof fn lemma_spans_from(path: Seq<char>, from: int)
    requires
        0 <= from,
    ensures
        forall|i: int|
            0 <= i < spans_from(path, from).len() ==> from <= (#[trigger] spans_from(
                path,
                from,
            )[i]).0 < spans_from(path, from)[i].1 <= path.len(),
        forall|i: int, j: int|
            0 <= i < j < spans_from(path, from).len() ==> (#[trigger] spans_from(path, from)[i]).1
                <= (#[trigger] spans_from(path, from)[j]).0,
    decreases path.len() + 1 - from,
{
    if from < path.len() {
        lemma_separator_from(path, from);
        let end = separator_from(path, from);
        lemma_spans_from(path, end + 1);
        let rest = spans_from(path, end + 1);
        if !is_idle(path.subrange(from, end)) {
            let all = spans_from(path, from);
            assert(all == seq![(from, end)] + rest);
            assert forall|i: int| 0 < i < all.len() implies all[i] == rest[i - 1] by {}
        }
    }
}

/// The characters of a text.
fn characters(text: &str) -> (chars: Vec<char>)
    ensures
        chars@ == text@,
{
    let mut chars: Vec<char> = Vec::new();
    for c in rest: text.chars()
        invariant
            rest.seq() == text@,
            chars@ == text@.take(rest.index() as int),
    {
        chars.push(c);
    }
    chars
}

/// Joins two paths.
pub fn join(base: &str, path: &str) -> (result: String)
    ensures
        result@ == joined(base@, path@),
{
    let base_chars = characters(base);
    let path_chars = characters(path);
    if path_chars.len() > 0 && path_chars[0] == '/' {
        return path.to_owned();
    }
    let mut result = base.to_owned();
    if base_chars.len() > 0 && base_chars[base_chars.len() - 1] != '/' {
        proof {
            reveal_strlit("/");
        }
        result.append("/");
        assert(result@ =~= base@.push('/'));
    }
    result.append(path);
    result
}

/// The spans of a path, as mathematical integers.
spec fn as_spans(found: Seq<(usize, usize)>) -> Seq<(int, int)> {
    found.map_values(|span: (usize, usize)| (span.0 as int, span.1 as int))
}

/// Finds the components of a path.
fn find_spans(path: &Vec<char>) -> (found: Vec<(usize, usize)>)
    ensures
        as_spans(found@) == spans(path@),
{
    let mut found: Vec<(usize, usize)> = Vec::new();
    let mut from: usize = 0;
    if path.len() > 0 && (path[0] == '/' || (path[0] == '.' && (path.len() == 1 || path[1] == '/'))) {
        found.push((0, 1));
        from = 1;
    }
    assert(spans(path@) =~= as_spans(found@) + spans_from(path@, from as int));
    while from < path.len()
        invariant
            spans(path@) == as_spans(found@) + spans_from(path@, from as int),
        decreases path.len() - from,
    {
        let mut end: usize = from;
        proof {
            lemma_separator_from(path@, from as int);
        }
        while end < path.len() && path[end] != '/'
            invariant
                from <= end <= path.len(),
                separator_from(path@, from as int) == separator_from(path@, end as int),
            decreases path.len() - end,
        {
            end = end + 1;
        }
        let ghost before = found@;
        let ghost text = path@.subrange(from as int, end as int);
        if end > from && !(end == from + 1 && path[from] == '.') {
            assert(text[0] == path@[from as int]);
            found.push((from, end));
            assert(as_spans(found@) =~= as_spans(before).push((from as int, end as int)));
            let ghost dot = seq!['.'];
            assert(dot.len() == 1 && dot[0] == '.');
            assert(text.len() == end - from);
            assert(!is_idle(text));
            assert(spans_from(path@, from as int) == seq![(from as int, end as int)] + spans_from(
                path@,
                end + 1,
            ));
        } else {
            assert(end == from + 1 ==> text =~= seq!['.']);
            assert(spans_from(path@, from as int) == spans_from(path@, end + 1));
        }
        assert(spans(path@) =~= as_spans(found@) + spans_from(path@, end + 1));
        if end == path.len() {
            from = end;
        } else {
            from = end + 1;
        }
    }
    assert(spans(path@) =~= as_spans(found@));
    found
}

/// Two stretches of characters are the same.
fn same_text(a: &Vec<char>, a_span: (usize, usize), b: &Vec<char>, b_span: (usize, usize)) -> (same:
    bool)
    requires
        a_span.0 <= a_span.1 <= a.len(),
        b_span.0 <= b_span.1 <= b.len(),
    ensures
        same == (a@.subrange(a_span.0 as int, a_span.1 as int) == b@.subrange(
            b_span.0 as int,
            b_span.1 as int,
        )),
{
    let ghost left = a@.subrange(a_span.0 as int, a_span.1 as int);
    let ghost right = b@.subrange(b_span.0 as int, b_span.1 as int);
    let length: usize = a_span.1 - a_span.0;
    if length != b_span.1 - b_span.0 {
        assert(left.len() != right.len());
        return false;
    }
    let mut i: usize = 0;
    while i < length
        invariant
            a_span.0 + length == a_span.1 <= a.len(),
            b_span.0 + length == b_span.1 <= b.len(),
            i <= length,
            left == a@.subrange(a_span.0 as int, a_span.1 as int),
            right == b@.subrange(b_span.0 as int, b_span.1 as int),
            forall|k: int| 0 <= k < i ==> left[k] == right[k],
        decreases length - i,
    {
        if a[a_span.0 + i] != b[b_span.0 + i] {
            assert(left[i as int] != right[i as int]);
            return false;
        }
        i = i + 1;
    }
    assert(left =~= right);
    true
}

/// Where the components of a path lie.
proof fn lemma_spans(path: Seq<char>)
    ensures
        forall|i: int|
            0 <= i < spans(path).len() ==> 0 <= (#[trigger] spans(path)[i]).0 < spans(path)[i].1
                <= path.len(),
        forall|i: int, j: int|
            0 <= i < j < spans(path).len() ==> (#[trigger] spans(path)[i]).1 <= (#[trigger] spans(
                path,
            )[j]).0,
{
    if has_anchor(path) {
        lemma_spans_from(path, 1);
        let rest = spans_from(path, 1);
        assert forall|i: int| 0 < i < spans(path).len() implies spans(path)[i] == rest[i - 1] by {}
    } else {
        lemma_spans_from(path, 0);
    }
}

/// Takes a leading path off, where the path leads through it.
pub fn strip_prefix(path: &str, base: &str) -> (result: Option<String>)
    ensures
        match result {
            Some(rest) => below(path@, base@) == Some(rest@),
            None => below(path@, base@) is None,
        },
{
    let path_chars = characters(path);
    let base_chars = characters(base);
    let path_spans = find_spans(&path_chars);
    let base_spans = find_spans(&base_chars);
    proof {
        lemma_spans(path@);
        lemma_spans(base@);
        assert(as_spans(path_spans@).len() == path_spans.len());
        assert(as_spans(base_spans@).len() == base_spans.len());
        assert forall|i: int| 0 <= i < path_spans.len() implies spans(path@)[i] == (
            (#[trigger] path_spans[i]).0 as int,
            path_spans[i].1 as int,
        ) by {
            assert(spans(path@)[i] == as_spans(path_spans@)[i]);
        }
        assert forall|i: int| 0 <= i < base_spans.len() implies spans(base@)[i] == (
            (#[trigger] base_spans[i]).0 as int,
            base_spans[i].1 as int,
        ) by {
            assert(spans(base@)[i] == as_spans(base_spans@)[i]);
        }
    }
    if base_spans.len() > path_spans.len() {
        return None;
    }
    let mut i: usize = 0;
    while i < base_spans.len()
        invariant
            i <= base_spans.len() <= path_spans.len(),
            path_chars@ == path@,
            base_chars@ == base@,
            spans(path@).len() == path_spans.len(),
            spans(base@).len() == base_spans.len(),
            forall|k: int|
                0 <= k < path_spans.len() ==> (#[trigger] path_spans[k]).0 < path_spans[k].1
                    <= path@.len() && spans(path@)[k] == (
                    path_spans[k].0 as int,
                    path_spans[k].1 as int,
                ),
            forall|k: int|
                0 <= k < base_spans.len() ==> (#[trigger] base_spans[k]).0 < base_spans[k].1
                    <= base@.len() && spans(base@)[k] == (
                    base_spans[k].0 as int,
                    base_spans[k].1 as int,
                ),
            forall|k: int|
                0 <= k < i ==> component(path@, #[trigger] spans(path@)[k]) == component(
                    base@,
                    spans(base@)[k],
                ),
        decreases base_spans.len() - i,
    {
        if !same_text(&path_chars, path_spans[i], &base_chars, base_spans[i]) {
            assert(component(path@, spans(path@)[i as int]) != component(
                base@,
                spans(base@)[i as int],
            ));
            return None;
        }
        i = i + 1;
    }
    let ghost rest = spans(path@).skip(base_spans.len() as int);
    if base_spans.len() == path_spans.len() {
        assert(rest.len() == 0);
        return Some(String::new());
    }
    let first = path_spans[base_spans.len()].0;
    let last = path_spans[path_spans.len() - 1].1;
    assert(rest[0].0 == first && rest.last().1 == last);
    Some(path.substring_char(first, last).to_owned())
}

/// Spans moved to the right.
spec fn moved(found: Seq<(int, int)>, by: int) -> Seq<(int, int)> {
    found.map_values(|span: (int, int)| (span.0 + by, span.1 + by))
}

proof fn lemma_separator_moved(front: Seq<char>, path: Seq<char>, from: int)
    requires
        0 <= from <= path.len(),
    ensures
        separator_from(front + path, front.len() + from) == front.len() + separator_from(path, from),
    decreases path.len() - from,
{
    if from < path.len() {
        assert((front + path)[front.len() + from] == path[from]);
        if path[from] != '/' {
            lemma_separator_moved(front, path, from + 1);
        }
    }
}

/// The components of a path stay the same behind another path.
proof fn lemma_spans_moved(front: Seq<char>, path: Seq<char>, from: int)
    requires
        0 <= from,
    ensures
        spans_from(front + path, front.len() + from) == moved(
            spans_from(path, from),
            front.len() as int,
        ),
    decreases path.len() + 1 - from,
{
    let whole = front + path;
    if from < path.len() {
        let end = separator_from(path, from);
        lemma_separator_from(path, from);
        lemma_separator_moved(front, path, from);
        lemma_spans_moved(front, path, end + 1);
        assert(whole.subrange(front.len() + from, front.len() + end) =~= path.subrange(from, end));
    }
    assert(spans_from(whole, front.len() + from) =~= moved(
        spans_from(path, from),
        front.len() as int,
    ));
}

proof fn lemma_separator_kept(front: Seq<char>, path: Seq<char>, from: int)
    requires
        0 <= from < front.len(),
        front.last() == '/',
    ensures
        separator_from(front + path, from) == separator_from(front, from) < front.len(),
    decreases front.len() - from,
{
    assert((front + path)[from] == front[from]);
    if front[from] != '/' {
        lemma_separator_kept(front, path, from + 1);
    }
}

/// The components of a path that ends with a separator stay the same in front of another path.
proof fn lemma_spans_kept(front: Seq<char>, path: Seq<char>, from: int)
    requires
        0 <= from <= front.len(),
        front.len() > 0,
        front.last() == '/',
    ensures
        spans_from(front + path, from) == spans_from(front, from) + spans_from(
            front + path,
            front.len() as int,
        ),
    decreases front.len() - from,
{
    let whole = front + path;
    if from < front.len() {
        let end = separator_from(front, from);
        lemma_separator_kept(front, path, from);
        lemma_separator_from(front, from);
        lemma_spans_kept(front, path, end + 1);
        assert(whole.subrange(from, end) =~= front.subrange(from, end));
    }
    assert(spans_from(whole, from) =~= spans_from(front, from) + spans_from(
        whole,
        front.len() as int,
    ));
}

/// A separator at the end adds no component.
proof fn lemma_spans_with_separator(path: Seq<char>, from: int)
    requires
        0 <= from,
    ensures
        spans_from(path.push('/'), from) == spans_from(path, from),
    decreases path.len() + 1 - from,
{
    let longer = path.push('/');
    if from < path.len() {
        let end = separator_from(path, from);
        lemma_separator_from(path, from);
        lemma_separator_pushed(path, from);
        lemma_spans_with_separator(path, end + 1);
        assert(longer.subrange(from, end) =~= path.subrange(from, end));
    } else if from == path.len() {
        reveal_with_fuel(spans_from, 2);
        assert(longer.subrange(from, from).len() == 0);
    }
}

proof fn lemma_separator_pushed(path: Seq<char>, from: int)
    requires
        0 <= from <= path.len(),
    ensures
        separator_from(path.push('/'), from) == separator_from(path, from),
    decreases path.len() - from,
{
    if from < path.len() {
        assert(path.push('/')[from] == path[from]);
        if path[from] != '/' {
            lemma_separator_pushed(path, from + 1);
        }
    } else {
        assert(path.push('/')[from] == '/');
    }
}

/// A relative path that begins with a component other than the current directory and ends with a
/// component other than the current directory.
pub open spec fn is_tidy(path: Seq<char>) -> bool {
    let found = spans_from(path, 0);
    found.len() > 0 && found[0].0 == 0 && found.last().1 == path.len()
}

/// The length of a path with the separator that joining puts behind it.
spec fn front_len(base: Seq<char>) -> int {
    if base.len() == 0 || base.last() == '/' {
        base.len() as int
    } else {
        base.len() as int + 1
    }
}

/// The components of a tidy path stand behind those of the path that it is joined to.
proof fn lemma_spans_joined(base: Seq<char>, path: Seq<char>)
    requires
        is_tidy(path),
    ensures
        spans(joined(base, path)) == spans(base) + moved(spans_from(path, 0), front_len(base)),
        joined(base, path).len() == front_len(base) + path.len(),
        joined(base, path).take(base.len() as int) == base,
        joined(base, path).skip(front_len(base)) == path,
{
    let whole = joined(base, path);
    lemma_spans_from(path, 0);
    if path[0] == '/' {
        assert(separator_from(path, 0) == 0);
        assert(path.subrange(0, 0).len() == 0);
        assert(spans_from(path, 0) == spans_from(path, 1));
        lemma_spans_from(path, 1);
        assert(spans_from(path, 1)[0].0 >= 1);
    }
    if has_anchor(path) {
        lemma_separator_from(path, 0);
        let end = separator_from(path, 0);
        reveal_with_fuel(separator_from, 2);
        assert(end == 1);
        assert(path.subrange(0, 1) =~= seq!['.']);
        assert(spans_from(path, 0) == spans_from(path, 2));
        lemma_spans_from(path, 2);
        assert(spans_from(path, 2)[0].0 >= 2);
    }
    let front = if base.len() == 0 || base.last() == '/' {
        base
    } else {
        base.push('/')
    };
    let size = front_len(base);
    assert(whole == front + path);
    lemma_spans_moved(front, path, 0);
    let tail = moved(spans_from(path, 0), size);
    if base.len() == 0 {
        assert(whole =~= path);
        assert(spans(base) =~= seq![]);
        assert(spans(whole) =~= tail);
        assert(spans(whole) =~= spans(base) + tail);
    } else {
        if base.last() != '/' {
            lemma_spans_with_separator(base, 0);
            lemma_spans_with_separator(base, 1);
            assert(front[0] == base[0]);
        }
        assert(spans(front) == spans(base));
        lemma_spans_kept(front, path, 0);
        lemma_spans_kept(front, path, 1);
        assert(whole[0] == front[0]);
        assert(front.len() > 1 ==> whole[1] == front[1]);
        assert(has_anchor(whole) == has_anchor(front));
        assert(spans(whole) =~= spans(base) + tail);
    }
    assert(whole.take(base.len() as int) =~= base);
    assert(whole.skip(size) =~= path);
}

/// The components of a tidy path, and of the path that it is joined to, are those of the whole.
proof fn lemma_components_joined(base: Seq<char>, path: Seq<char>)
    requires
        is_tidy(path),
    ensures
        components(joined(base, path)).len() == spans(base).len() + spans_from(path, 0).len(),
        forall|i: int|
            0 <= i < spans(base).len() ==> component(
                joined(base, path),
                #[trigger] spans(joined(base, path))[i],
            ) == component(base, spans(base)[i]),
        forall|i: int|
            0 <= i < spans_from(path, 0).len() ==> component(
                joined(base, path),
                spans(joined(base, path))[spans(base).len() + i],
            ) == component(path, #[trigger] spans_from(path, 0)[i]),
{
    let whole = joined(base, path);
    let size = front_len(base);
    lemma_spans_joined(base, path);
    lemma_spans(base);
    lemma_spans_from(path, 0);
    assert forall|i: int| 0 <= i < spans(base).len() implies component(
        whole,
        #[trigger] spans(whole)[i],
    ) == component(base, spans(base)[i]) by {
        let span = spans(base)[i];
        assert(spans(whole)[i] == span);
        assert(whole.subrange(span.0, span.1) =~= whole.take(base.len() as int).subrange(
            span.0,
            span.1,
        ));
    }
    assert forall|i: int| 0 <= i < spans_from(path, 0).len() implies component(
        whole,
        spans(whole)[spans(base).len() + i],
    ) == component(path, #[trigger] spans_from(path, 0)[i]) by {
        let span = spans_from(path, 0)[i];
        assert(spans(whole)[spans(base).len() + i] == (span.0 + size, span.1 + size));
        assert(whole.subrange(span.0 + size, span.1 + size) =~= whole.skip(size).subrange(
            span.0,
            span.1,
        ));
    }
}

/// Taking off what a relative path was joined to gives the relative path back.
pub proof fn law_joined_path_is_below(base: Seq<char>, path: Seq<char>)
    requires
        is_tidy(path),
    ensures
        below(joined(base, path), base) == Some(path),
{
    let whole = joined(base, path);
    lemma_spans_joined(base, path);
    lemma_components_joined(base, path);
    let tail = moved(spans_from(path, 0), front_len(base));
    let rest = spans(whole).skip(spans(base).len() as int);
    assert(rest =~= tail);
    assert(whole.subrange(rest[0].0, rest.last().1) =~= whole.skip(front_len(base)));
}

/// Behind the beginning of a component come that component and those behind it.
proof fn lemma_spans_from_span(path: Seq<char>, from: int, k: int)
    requires
        0 <= from,
        0 <= k < spans_from(path, from).len(),
    ensures
        spans_from(path, spans_from(path, from)[k].0) == spans_from(path, from).skip(k),
    decreases path.len() + 1 - from,
{
    lemma_separator_from(path, from);
    let end = separator_from(path, from);
    let rest = spans_from(path, end + 1);
    let all = spans_from(path, from);
    if is_idle(path.subrange(from, end)) {
        lemma_spans_from_span(path, end + 1, k);
    } else {
        assert(all == seq![(from, end)] + rest);
        if k == 0 {
            assert(all.skip(0) =~= all);
        } else {
            assert(all[k] == rest[k - 1]);
            lemma_spans_from_span(path, end + 1, k - 1);
            assert(all.skip(k) =~= rest.skip(k - 1));
        }
    }
}

/// The components stay the same when what stands behind the last of them is cut off.
proof fn lemma_spans_cut(path: Seq<char>, from: int, end: int)
    requires
        0 <= from <= end <= path.len(),
        forall|i: int|
            0 <= i < spans_from(path, from).len() ==> (#[trigger] spans_from(path, from)[i]).1
                <= end,
    ensures
        spans_from(path.take(end), from) == spans_from(path, from),
    decreases path.len() + 1 - from,
{
    let short = path.take(end);
    if from < path.len() {
        lemma_separator_from(path, from);
        let stop = separator_from(path, from);
        let rest = spans_from(path, stop + 1);
        let all = spans_from(path, from);
        let idle = is_idle(path.subrange(from, stop));
        lemma_spans_from(path, stop + 1);
        if !idle {
            assert(all == seq![(from, stop)] + rest);
            assert(all[0].1 <= end);
        }
        assert forall|i: int| 0 <= i < rest.len() implies (#[trigger] rest[i]).1 <= end by {
            if idle {
                assert(rest[i] == all[i]);
            } else {
                assert(rest[i] == all[i + 1]);
            }
        }
        if stop >= end {
            if rest.len() > 0 {
                assert(rest[0].0 < rest[0].1 <= end);
            }
            assert(rest =~= seq![]);
        }
        if from < end && stop <= end {
            lemma_separator_cut(path, from, end);
            assert(short.subrange(from, stop) =~= path.subrange(from, stop));
            if stop < end {
                lemma_spans_cut(path, stop + 1, end);
            } else {
                assert(spans_from(short, stop + 1) =~= seq![]);
            }
        } else if from < end {
            assert(path.subrange(from, stop).len() > 1);
        }
    }
}

/// The next separator stays where it is when what stands behind it is cut off.
proof fn lemma_separator_cut(path: Seq<char>, from: int, end: int)
    requires
        0 <= from <= end <= path.len(),
        separator_from(path, from) <= end,
    ensures
        separator_from(path.take(end), from) == separator_from(path, from),
    decreases path.len() - from,
{
    if from < path.len() {
        lemma_separator_from(path, from);
        if from < end {
            assert(path.take(end)[from] == path[from]);
            if path[from] != '/' {
                lemma_separator_cut(path, from + 1, end);
            }
        }
    }
}

/// A path that is not empty has a component.
proof fn lemma_first_component(path: Seq<char>)
    requires
        path.len() > 0,
        !has_anchor(path),
    ensures
        spans_from(path, 0).len() > 0,
        spans_from(path, 0)[0].0 == 0,
        path[0] == '.' ==> spans_from(path, 0)[0].1 >= 2,
{
    lemma_separator_from(path, 0);
    let end = separator_from(path, 0);
    reveal_with_fuel(separator_from, 3);
    assert(end > 0);
    let first = path.subrange(0, end);
    if is_idle(first) {
        assert(first[0] == '.');
        assert(end == 1);
    }
    assert(spans_from(path, 0)[0] == (0int, end));
}

/// A path from the beginning of a component to the end of the last one is tidy, and has the
/// components that stand there.
proof fn lemma_rest_is_tidy(path: Seq<char>, from: int, k: int)
    requires
        0 <= from,
        0 <= k < spans_from(path, from).len(),
    ensures
        ({
            let rest = spans_from(path, from).skip(k);
            let left = path.subrange(rest[0].0, rest.last().1);
            &&& is_tidy(left)
            &&& spans_from(left, 0).len() == rest.len()
            &&& forall|i: int|
                0 <= i < rest.len() ==> component(left, #[trigger] spans_from(left, 0)[i])
                    == component(path, rest[i])
        }),
{
    let all = spans_from(path, from);
    let rest = all.skip(k);
    let start = rest[0].0;
    let end = rest.last().1;
    let left = path.subrange(start, end);
    lemma_spans_from(path, from);
    assert(rest[0] == all[k]);
    assert(rest.last() == all[all.len() - 1]);
    lemma_spans_from_span(path, from, k);
    assert(spans_from(path, start) == rest);
    assert forall|i: int| 0 <= i < rest.len() implies (#[trigger] rest[i]).1 <= end by {
        assert(rest[i] == all[k + i]);
    }
    lemma_spans_cut(path, start, end);
    let front = path.take(start);
    assert(front + left =~= path.take(end));
    lemma_spans_moved(front, left, 0);
    let found = spans_from(left, 0);
    assert(rest == moved(found, start));
    assert forall|i: int| 0 <= i < rest.len() implies component(left, #[trigger] found[i])
        == component(path, rest[i]) by {
        assert(rest[i] == (found[i].0 + start, found[i].1 + start));
        assert(rest[i] == all[k + i]);
        lemma_spans_from(left, 0);
        assert(left.subrange(found[i].0, found[i].1) =~= path.subrange(rest[i].0, rest[i].1));
    }
    assert(rest[0] == (found[0].0 + start, found[0].1 + start));
    assert(rest.last() == (found.last().0 + start, found.last().1 + start));
}

/// No separator stands within a span.
proof fn lemma_spans_without_separator(path: Seq<char>, from: int)
    requires
        0 <= from,
    ensures
        forall|i: int, k: int|
            0 <= i < spans_from(path, from).len() && (#[trigger] spans_from(path, from)[i]).0 <= k
                < spans_from(path, from)[i].1 ==> #[trigger] path[k] != '/',
    decreases path.len() + 1 - from,
{
    if from < path.len() {
        lemma_separator_from(path, from);
        let end = separator_from(path, from);
        lemma_spans_without_separator(path, end + 1);
        let rest = spans_from(path, end + 1);
        let all = spans_from(path, from);
        if !is_idle(path.subrange(from, end)) {
            assert(all == seq![(from, end)] + rest);
            assert forall|i: int, k: int|
                0 <= i < all.len() && (#[trigger] all[i]).0 <= k < all[i].1 implies #[trigger] path[k]
                != '/' by {
                if i > 0 {
                    assert(all[i] == rest[i - 1]);
                }
            }
        }
    }
}

/// A tidy path neither begins nor ends with a separator.
proof fn lemma_tidy_ends(path: Seq<char>)
    requires
        is_tidy(path),
    ensures
        path.len() > 0,
        path[0] != '/',
        path.last() != '/',
{
    let found = spans_from(path, 0);
    lemma_spans_from(path, 0);
    lemma_spans_without_separator(path, 0);
    assert(found[0].0 < found[0].1);
    assert(found[found.len() - 1].0 < found[found.len() - 1].1);
}

/// A tidy path joined to another is tidy, and it makes no difference which of three paths are
/// joined first.
pub proof fn law_tidy_paths_join_in_any_order(
    base: Seq<char>,
    directory: Seq<char>,
    path: Seq<char>,
)
    requires
        is_tidy(directory),
        is_tidy(path),
    ensures
        is_tidy(joined(directory, path)),
        joined(joined(base, directory), path) == joined(base, joined(directory, path)),
{
    lemma_tidy_ends(directory);
    lemma_tidy_ends(path);
    let front = directory.push('/');
    let whole = joined(directory, path);
    assert(whole == front + path);
    lemma_spans_with_separator(directory, 0);
    lemma_spans_kept(front, path, 0);
    lemma_spans_moved(front, path, 0);
    let found = spans_from(whole, 0);
    let tail = moved(spans_from(path, 0), front.len() as int);
    assert(found == spans_from(directory, 0) + tail);
    assert(found[0] == spans_from(directory, 0)[0]);
    assert(found.last() == tail.last());
    let inner = joined(base, directory);
    assert(inner.last() == directory.last());
    assert(joined(inner, path) =~= joined(base, whole));
}

/// Cutting off what stands behind the last component keeps the components.
proof fn lemma_components_cut(path: Seq<char>)
    requires
        spans(path).len() > 0,
    ensures
        spans(path)[0].0 == 0,
        components(path.take(spans(path).last().1)) == components(path),
{
    let all = spans(path);
    let end = all.last().1;
    let short = path.take(end);
    let from: int = if has_anchor(path) {
        1
    } else {
        0
    };
    lemma_spans(path);
    lemma_spans_from(path, from);
    assert(all[all.len() - 1] == all.last());
    if has_anchor(path) {
        assert(all[0] == (0int, 1int));
        assert forall|i: int| 0 <= i < spans_from(path, 1).len() implies (#[trigger] spans_from(
            path,
            1,
        )[i]).1 <= end by {
            assert(spans_from(path, 1)[i] == all[i + 1]);
        }
    } else {
        lemma_first_component(path);
    }
    assert forall|i: int| 0 <= i < all.len() implies (#[trigger] all[i]).1 <= end by {
        if i < all.len() - 1 {
            assert(all[i].1 <= all[all.len() - 1].0);
        }
    }
    assert(all[0].1 <= end);
    lemma_spans_cut(path, from, end);
    assert(short[0] == path[0]);
    assert(end > 1 ==> short[1] == path[1]);
    assert(has_anchor(short) == has_anchor(path));
    assert(spans(short) == all);
    assert forall|i: int| 0 <= i < all.len() implies component(short, #[trigger] all[i])
        == component(path, all[i]) by {
        assert(short.subrange(all[i].0, all[i].1) =~= path.subrange(all[i].0, all[i].1));
    }
    assert(components(short) =~= components(path));
}

/// The path below `base` leads from there to where the whole path leads: joined to `base` it has,
/// one by one, the components of the whole path.
pub proof fn law_path_below_leads_to_the_path(path: Seq<char>, base: Seq<char>)
    requires
        below(path, base) is Some,
    ensures
        components(joined(base, below(path, base)->0)) == components(path),
{
    let left = below(path, base)->0;
    let whole = joined(base, left);
    let all = spans(path);
    let count = spans(base).len() as int;
    let rest = all.skip(count);
    if base.len() == 0 {
        assert(spans(base) =~= seq![]);
        assert(whole =~= left);
        assert(rest =~= all);
        if all.len() > 0 {
            lemma_components_cut(path);
            assert(left =~= path.take(all.last().1));
        } else {
            assert(components(whole) =~= components(path));
        }
    } else {
        if !has_anchor(base) {
            lemma_first_component(base);
        }
        assert(count > 0);
        if rest.len() == 0 {
            assert(left =~= seq![]);
            lemma_spans(base);
            if base.last() == '/' {
                assert(whole =~= base);
            } else {
                assert(whole =~= base.push('/'));
                lemma_spans_with_separator(base, 0);
                lemma_spans_with_separator(base, 1);
                assert(whole[0] == base[0]);
            }
            assert(spans(whole) == spans(base));
            assert forall|i: int| 0 <= i < count implies component(
                whole,
                #[trigger] spans(whole)[i],
            ) == component(path, all[i]) by {
                let span = spans(base)[i];
                assert(whole.subrange(span.0, span.1) =~= base.subrange(span.0, span.1));
            }
        } else {
            if has_anchor(path) {
                assert(spans_from(path, 1).skip(count - 1) =~= rest);
                lemma_rest_is_tidy(path, 1, count - 1);
            } else {
                lemma_rest_is_tidy(path, 0, count);
            }
            lemma_components_joined(base, left);
            assert forall|i: int| 0 <= i < all.len() implies component(
                whole,
                #[trigger] spans(whole)[i],
            ) == component(path, all[i]) by {
                if i >= count {
                    let j = i - count;
                    assert(component(left, spans_from(left, 0)[j]) == component(path, rest[j]));
                    assert(spans(whole)[count + j] == spans(whole)[i]);
                }
            }
        }
        assert(components(whole) =~= components(path));
    }
}

/// A path from the root stays as it is when it is joined to another; every other path stands whole
/// behind the whole other path, with one separator in between.
pub proof fn law_joined_path_holds_both(base: Seq<char>, path: Seq<char>)
    ensures
        joined(base, seq!['/'] + path) == seq!['/'] + path,
        path.len() == 0 || path[0] != '/' ==> {
            &&& base.len() == 0 ==> joined(base, path) == path
            &&& joined(base + seq!['/'], path) == base + seq!['/'] + path
            &&& base.len() > 0 && base.last() != '/' ==> joined(base, path) == base + seq!['/']
                + path
        },
{
    assert((seq!['/'] + path)[0] == '/');
    assert(base.len() == 0 ==> base + path =~= path);
    assert(base.push('/') =~= base + seq!['/']);
}

/// Those of some parts of a path that name something: neither nothing nor the current directory.
pub open spec fn names_in(parts: Seq<Seq<char>>) -> Seq<Seq<char>>
    decreases parts.len(),
{
    if parts.len() == 0 {
        seq![]
    } else if parts[0].len() == 0 || parts[0] == seq!['.'] {
        names_in(parts.drop_first())
    } else {
        seq![parts[0]] + names_in(parts.drop_first())
    }
}

/// The texts of some components.
spec fn texts_of(path: Seq<char>, found: Seq<(int, int)>) -> Seq<Seq<char>> {
    found.map_values(|span: (int, int)| component(path, span))
}

/// The components behind a position are the parts there that name something.
proof fn lemma_components_behind(path: Seq<char>, from: int, parts: Seq<Seq<char>>)
    requires
        0 <= from <= path.len(),
        parts.len() > 0,
        forall|i: int| 0 <= i < parts.len() ==> !(#[trigger] parts[i]).contains('/'),
        path.skip(from) == joined_with(parts, seq!['/']),
    ensures
        texts_of(path, spans_from(path, from)) == names_in(parts),
    decreases parts.len(),
{
    let rest = parts.drop_first();
    let end = from + parts[0].len();
    let behind = path.skip(from);
    if parts.len() > 1 {
        lemma_joined_from_first(parts, seq!['/']);
        assert(behind == parts[0] + seq!['/'] + joined_with(rest, seq!['/']));
        assert(behind[parts[0].len() as int] == '/');
        assert(path[end] == '/');
    }
    assert forall|i: int| from <= i < end implies path[i] != '/' by {
        assert(path[i] == behind[i - from]);
        assert(behind[i - from] == parts[0][i - from]);
        assert(!parts[0].contains('/'));
    }
    if from < path.len() {
        lemma_separator_from(path, from);
        assert(separator_from(path, from) == end);
        assert(path.subrange(from, end) =~= parts[0]);
        let found = spans_from(path, end + 1);
        if parts.len() > 1 {
            let further = joined_with(rest, seq!['/']);
            assert(behind.skip(end + 1 - from) =~= further);
            assert(path.skip(end + 1) =~= behind.skip(end + 1 - from));
            assert forall|i: int| 0 <= i < rest.len() implies !(#[trigger] rest[i]).contains('/') by {
                assert(rest[i] == parts[i + 1]);
            }
            lemma_components_behind(path, end + 1, rest);
        } else {
            assert(found =~= seq![]);
            assert(names_in(rest) =~= seq![]);
        }
        assert(texts_of(path, found) =~= names_in(rest));
        if !is_idle(parts[0]) {
            assert(texts_of(path, seq![(from, end)] + found) =~= seq![parts[0]] + texts_of(
                path,
                found,
            ));
        }
    } else {
        assert(parts[0].len() == 0);
        assert(names_in(rest) =~= seq![]);
        assert(texts_of(path, spans_from(path, from)) =~= seq![]);
    }
}

/// The components of a path are what stands between its separators, in order, without what names
/// nothing; in front of them stands the root, or the current directory, if the path begins with it.
pub proof fn law_components_stand_between_separators(parts: Seq<Seq<char>>)
    requires
        parts.len() > 0,
        forall|i: int| 0 <= i < parts.len() ==> !(#[trigger] parts[i]).contains('/'),
    ensures
        ({
            let path = joined_with(parts, seq!['/']);
            if parts[0].len() == 0 && parts.len() > 1 {
                components(path) == seq![seq!['/']] + names_in(parts)
            } else if parts[0] == seq!['.'] {
                components(path) == seq![seq!['.']] + names_in(parts)
            } else {
                components(path) == names_in(parts)
            }
        }),
{
    let path = joined_with(parts, seq!['/']);
    let rest = parts.drop_first();
    assert forall|i: int| 0 <= i < rest.len() implies !(#[trigger] rest[i]).contains('/') by {
        assert(rest[i] == parts[i + 1]);
    }
    assert(!parts[0].contains('/'));
    if parts.len() > 1 {
        lemma_joined_from_first(parts, seq!['/']);
    }
    if parts[0].len() == 0 && parts.len() > 1 {
        assert(path[0] == '/');
        assert(path.skip(1) =~= joined_with(rest, seq!['/']));
        lemma_components_behind(path, 1, rest);
        assert(path.subrange(0, 1) =~= seq!['/']);
        assert(components(path) =~= seq![seq!['/']] + texts_of(path, spans_from(path, 1)));
    } else if parts[0] == seq!['.'] {
        assert(path[0] == '.');
        assert(parts.len() > 1 ==> path[1] == '/');
        assert(path.subrange(0, 1) =~= seq!['.']);
        let empty = Seq::<char>::empty();
        let shifted = seq![empty] + rest;
        assert(shifted.drop_first() =~= rest);
        if parts.len() > 1 {
            lemma_joined_from_first(shifted, seq!['/']);
            assert(path.skip(1) =~= joined_with(shifted, seq!['/']));
        } else {
            assert(path.skip(1) =~= joined_with(shifted, seq!['/']));
        }
        assert forall|i: int| 0 <= i < shifted.len() implies !(#[trigger] shifted[i]).contains(
            '/',
        ) by {
            if i > 0 {
                assert(shifted[i] == rest[i - 1]);
            }
        }
        lemma_components_behind(path, 1, shifted);
        assert(components(path) =~= seq![seq!['.']] + texts_of(path, spans_from(path, 1)));
    } else {
        assert(path.skip(0) =~= path);
        lemma_components_behind(path, 0, parts);
        if parts[0].len() > 0 {
            assert(path[0] == parts[0][0]);
            assert(path[0] != '/');
            if path[0] == '.' {
                assert(parts[0] =~= seq!['.'] || parts[0].len() > 1);
                assert(path[1] == parts[0][1]);
                assert(path[1] != '/');
            }
        }
        assert(!has_anchor(path));
        assert(components(path) =~= texts_of(path, spans_from(path, 0)));
    }
}

/// A path is below another exactly where its components begin with those of the other.
pub proof fn law_path_is_below_where_its_components_begin(path: Seq<char>, base: Seq<char>)
    ensures
        below(path, base) is Some <==> components(base).len() <= components(path).len()
            && components(path).take(components(base).len() as int) == components(base),
{
    let first = components(path).take(components(base).len() as int);
    if leads(base, path) {
        assert(first =~= components(base));
    } else if components(base).len() <= components(path).len() && first == components(base) {
        assert forall|i: int| 0 <= i < spans(base).len() implies component(
            path,
            #[trigger] spans(path)[i],
        ) == component(base, spans(base)[i]) by {
            assert(first[i] == components(base)[i]);
        }
    }
}

/// The path below another is a part of the whole path as it stands there, from the beginning of a
/// component to the end of one.
pub proof fn law_path_below_is_part_of_the_path(path: Seq<char>, base: Seq<char>)
    requires
        below(path, base) is Some,
    ensures
        exists|from: int, end: int|
            0 <= from <= end <= path.len() && below(path, base)->0 == #[trigger] path.subrange(
                from,
                end,
            ),
        base.len() > 0 && below(path, base)->0.len() > 0 ==> is_tidy(below(path, base)->0),
{
    let left = below(path, base)->0;
    let all = spans(path);
    let count = spans(base).len() as int;
    let rest = all.skip(count);
    lemma_spans(path);
    if rest.len() == 0 {
        assert(left =~= path.subrange(0, 0));
    } else {
        assert(rest[0] == all[count]);
        assert(rest.last() == all[all.len() - 1]);
        if rest.len() > 1 {
            assert(all[count].1 <= all[all.len() - 1].0);
        }
        assert(left == path.subrange(rest[0].0, rest.last().1));
        if base.len() > 0 {
            if !has_anchor(base) {
                lemma_first_component(base);
            }
            if has_anchor(path) {
                assert(spans_from(path, 1).skip(count - 1) =~= rest);
                lemma_rest_is_tidy(path, 1, count - 1);
            } else {
                lemma_rest_is_tidy(path, 0, count);
            }
        }
    }
}

} // verus!
