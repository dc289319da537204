//! Unix paths as byte strings, compared component by component.

use vstd::prelude::*;

verus! {

/// The byte that separates the segments of a path.
pub const SEPARATOR: u8 = 47;

/// The byte that sets a file name's extension apart.
pub const DOT: u8 = 46;

/// The pieces of `path` between its separators, empty pieces included.
pub open spec fn segments(path: Seq<u8>) -> Seq<Seq<u8>>
    decreases path.len(),
{
    if path.len() == 0 {
        seq![Seq::empty()]
    } else {
        let front = segments(path.drop_last());
        if path.last() == SEPARATOR {
            front.push(Seq::empty())
        } else {
            front.drop_last().push(front.last().push(path.last()))
        }
    }
}

/// Whether a segment names something: empty segments and dots do not, but for
/// a dot that starts the path.
pub open spec fn significant(segment: Seq<u8>, leading: bool) -> bool {
    segment.len() != 0 && (segment != seq![DOT] || leading)
}

/// The segments that name something, in order.
pub open spec fn significant_segments(pieces: Seq<Seq<u8>>) -> Seq<Seq<u8>>
    decreases pieces.len(),
{
    if pieces.len() == 0 {
        Seq::empty()
    } else {
        let front = significant_segments(pieces.drop_last());
        if significant(pieces.last(), pieces.len() == 1) {
            front.push(pieces.last())
        } else {
            front
        }
    }
}

pub open spec fn is_rooted(path: Seq<u8>) -> bool {
    path.len() > 0 && path[0] == SEPARATOR
}

/// The components of a path: the root, where the path starts with it, and the
/// segments that name something. Two paths are equal when their components are.
pub open spec fn components(path: Seq<u8>) -> Seq<Seq<u8>> {
    let named = significant_segments(segments(path));
    if is_rooted(path) {
        seq![seq![SEPARATOR]] + named
    } else {
        named
    }
}

/// A segment that names a file or a directory, and is no `.` and no `..`.
pub open spec fn is_plain_name(name: Seq<u8>) -> bool {
    &&& name.len() > 0
    &&& !name.contains(SEPARATOR)
    &&& name != seq![DOT]
    &&& name != seq![DOT, DOT]
}

/// `name` below the directory `base`.
pub open spec fn joined(base: Seq<u8>, name: Seq<u8>) -> Seq<u8> {
    if base.len() == 0 || base.last() == SEPARATOR {
        base + name
    } else {
        base.push(SEPARATOR) + name
    }
}

/// The last component, where it names a file or a directory.
pub open spec fn file_name(path: Seq<u8>) -> Option<Seq<u8>> {
    let parts = components(path);
    if parts.len() > 0 && is_plain_name(parts.last()) {
        Some(parts.last())
    } else {
        None
    }
}

/// Whether a path names something in a directory: it has a component, and the last
/// one is not the root.
pub open spec fn has_parent(path: Seq<u8>) -> bool {
    components(path).len() > 0 && components(path).last() != seq![SEPARATOR]
}

/// The file name without its extension: what stands before its last dot, or all
/// of it where there is no dot but at its start.
pub open spec fn file_stem(path: Seq<u8>) -> Option<Seq<u8>> {
    match file_name(path) {
        Some(name) => Some(stem(name)),
        None => None,
    }
}

pub open spec fn stem(name: Seq<u8>) -> Seq<u8> {
    if last_dot(name) > 0 {
        name.take(last_dot(name))
    } else {
        name
    }
}

/// The place of the last dot in `name`, or -1 where it holds none.
pub open spec fn last_dot(name: Seq<u8>) -> int
    decreases name.len(),
{
    if name.len() == 0 || name.last() == DOT {
        name.len() - 1
    } else {
        last_dot(name.drop_last())
    }
}

pub open spec fn byte_strings(parts: Seq<Vec<u8>>) -> Seq<Seq<u8>> {
    parts.map_values(|part: Vec<u8>| part@)
}

proof fn lemma_segments_nonempty(path: Seq<u8>)
    ensures
        segments(path).len() > 0,
    decreases path.len(),
{
    if path.len() > 0 {
        lemma_segments_nonempty(path.drop_last());
    }
}

/// Bytes that hold no separator lengthen the last segment.
proof fn lemma_segments_extended(base: Seq<u8>, name: Seq<u8>)
    requires
        !name.contains(SEPARATOR),
    ensures
        segments(base + name) == segments(base).drop_last().push(segments(base).last() + name),
    decreases name.len(),
{
    lemma_segments_nonempty(base);
    if name.len() == 0 {
        assert(base + name =~= base);
        assert(segments(base).last() + name =~= segments(base).last());
        assert(segments(base).drop_last().push(segments(base).last()) =~= segments(base));
    } else {
        let shorter = name.drop_last();
        assert(!shorter.contains(SEPARATOR)) by {
            assert forall|i: int| 0 <= i < shorter.len() implies shorter[i] != SEPARATOR by {
                assert(name.contains(name[i]));
            }
        }
        lemma_segments_extended(base, shorter);
        assert((base + name).drop_last() =~= base + shorter);
        assert(name.contains(name.last()));
        let front = segments(base + shorter);
        assert(front.drop_last() =~= segments(base).drop_last());
        assert(front.last() =~= segments(base).last() + shorter);
        assert(front.last().push(name.last()) =~= segments(base).last() + name);
    }
}

/// A plain name joined to a path is one more component.
pub proof fn lemma_joined_components(base: Seq<u8>, name: Seq<u8>)
    requires
        is_plain_name(name),
    ensures
        components(joined(base, name)) == components(base).push(name),
{
    lemma_segments_nonempty(base);
    let whole = joined(base, name);
    let pieces = segments(base);
    reveal_with_fuel(significant_segments, 2);
    if base.len() == 0 {
        lemma_segments_extended(base, name);
        assert(Seq::<u8>::empty() + name =~= name);
        assert(segments(whole) =~= seq![name]);
        assert(seq![name].drop_last() =~= Seq::<Seq<u8>>::empty());
        assert(pieces.drop_last() =~= Seq::<Seq<u8>>::empty());
        assert(name.contains(name[0]));
        assert(components(whole) =~= seq![name]);
        assert(components(base).push(name) =~= seq![name]);
    } else if base.last() == SEPARATOR {
        lemma_segments_nonempty(base.drop_last());
        lemma_segments_extended(base, name);
        assert(pieces.last() =~= Seq::<u8>::empty());
        assert(pieces.last() + name =~= name);
        assert(segments(whole).drop_last() =~= pieces.drop_last());
        assert(components(whole) =~= components(base).push(name));
    } else {
        let slashed = base.push(SEPARATOR);
        lemma_segments_extended(slashed, name);
        assert(slashed.drop_last() =~= base);
        assert(segments(slashed) =~= pieces.push(Seq::empty()));
        assert(segments(slashed).drop_last() =~= pieces);
        assert(Seq::<u8>::empty() + name =~= name);
        assert(segments(whole) =~= pieces.push(name));
        assert(pieces.push(name).drop_last() =~= pieces);
        assert(components(whole) =~= components(base).push(name));
    }
}

pub fn same_bytes(left: &[u8], right: &[u8]) -> (same: bool)
    ensures
        same == (left@ == right@),
{
    if left.len() != right.len() {
        return false;
    }
    let mut i: usize = 0;
    while i < left.len()
        invariant
            i <= left.len(),
            left.len() == right.len(),
            forall|j: int| 0 <= j < i ==> left@[j] == right@[j],
        decreases left.len() - i,
    {
        if left[i] != right[i] {
            return false;
        }
        i += 1;
    }
    assert(left@ =~= right@);
    true
}

fn copied(bytes: &[u8], end: usize) -> (copy: Vec<u8>)
    requires
        end <= bytes@.len(),
    ensures
        copy@ == bytes@.take(end as int),
{
    let mut copy: Vec<u8> = Vec::new();
    let mut i: usize = 0;
    while i < end
        invariant
            i <= end <= bytes@.len(),
            copy@ == bytes@.take(i as int),
        decreases end - i,
    {
        copy.push(bytes[i]);
        i += 1;
        assert(copy@ =~= bytes@.take(i as int));
    }
    copy
}

/// A copy of `bytes`.
pub fn owned(bytes: &[u8]) -> (copy: Vec<u8>)
    ensures
        copy@ == bytes@,
{
    let copy = copied(bytes, bytes.len());
    assert(bytes@.take(bytes@.len() as int) =~= bytes@);
    copy
}

/// `name` below the directory `base`.
pub fn join(base: &[u8], name: &[u8]) -> (whole: Vec<u8>)
    ensures
        whole@ == joined(base@, name@),
{
    let mut whole = owned(base);
    if base.len() > 0 && base[base.len() - 1] != SEPARATOR {
        whole.push(SEPARATOR);
    }
    let ghost start = whole@;
    let mut i: usize = 0;
    while i < name.len()
        invariant
            i <= name.len(),
            whole@ == start + name@.take(i as int),
        decreases name.len() - i,
    {
        whole.push(name[i]);
        i += 1;
        assert(whole@ =~= start + name@.take(i as int));
    }
    assert(name@.take(name@.len() as int) =~= name@);
    assert(whole@ == start + name@);
    whole
}

fn is_significant(segment: &Vec<u8>, leading: bool) -> (r: bool)
    ensures
        r == significant(segment@, leading),
{
    if segment.len() == 0 {
        return false;
    }
    proof {
        if segment@.len() == 1 && segment@[0] == DOT {
            assert(segment@ =~= seq![DOT]);
        }
    }
    leading || segment.len() != 1 || segment[0] != DOT
}

/// The components of `path`.
pub fn path_components(path: &[u8]) -> (parts: Vec<Vec<u8>>)
    ensures
        byte_strings(parts@) == components(path@),
{
    let mut parts: Vec<Vec<u8>> = Vec::new();
    let mut segment: Vec<u8> = Vec::new();
    let mut leading = true;
    let ghost root: Seq<Seq<u8>> = if is_rooted(path@) {
        seq![seq![SEPARATOR]]
    } else {
        Seq::empty()
    };
    if path.len() > 0 && path[0] == SEPARATOR {
        let mut slash: Vec<u8> = Vec::new();
        slash.push(SEPARATOR);
        assert(slash@ =~= seq![SEPARATOR]);
        parts.push(slash);
    }
    assert(byte_strings(parts@) =~= root);
    proof {
        assert(path@.take(0) =~= Seq::<u8>::empty());
        assert(segments(path@.take(0)) =~= seq![Seq::<u8>::empty()]);
        assert(segments(path@.take(0)).drop_last() =~= Seq::<Seq<u8>>::empty());
        assert(significant_segments(Seq::<Seq<u8>>::empty()) =~= Seq::<Seq<u8>>::empty());
        assert(root + Seq::<Seq<u8>>::empty() =~= root);
    }
    let mut i: usize = 0;
    while i < path.len()
        invariant
            i <= path.len(),
            segments(path@.take(i as int)).len() > 0,
            segments(path@.take(i as int)).last() == segment@,
            leading == (segments(path@.take(i as int)).len() == 1),
            byte_strings(parts@) == root + significant_segments(
                segments(path@.take(i as int)).drop_last(),
            ),
        decreases path.len() - i,
    {
        let ghost front = segments(path@.take(i as int));
        let ghost before = parts@;
        assert(path@.take(i + 1).drop_last() =~= path@.take(i as int));
        if path[i] == SEPARATOR {
            if is_significant(&segment, leading) {
                parts.push(segment);
                assert(byte_strings(parts@) =~= byte_strings(before).push(front.last()));
            }
            segment = Vec::new();
            leading = false;
            assert(segments(path@.take(i + 1)).drop_last() =~= front);
            assert(byte_strings(parts@) =~= root + significant_segments(front));
        } else {
            segment.push(path[i]);
            assert(segments(path@.take(i + 1)).drop_last() =~= front.drop_last());
        }
        i += 1;
    }
    assert(path@.take(path@.len() as int) =~= path@);
    let ghost front = segments(path@);
    let ghost before = parts@;
    if is_significant(&segment, leading) {
        parts.push(segment);
        assert(byte_strings(parts@) =~= byte_strings(before).push(front.last()));
    }
    assert(byte_strings(parts@) =~= components(path@));
    parts
}

/// Whether two paths are equal: `a//b/./c/` and `a/b/c` are.
pub fn same_path(left: &[u8], right: &[u8]) -> (same: bool)
    ensures
        same == (components(left@) == components(right@)),
{
    let a = path_components(left);
    let b = path_components(right);
    if a.len() != b.len() {
        assert(byte_strings(a@).len() != byte_strings(b@).len());
        return false;
    }
    let mut i: usize = 0;
    while i < a.len()
        invariant
            i <= a.len(),
            a.len() == b.len(),
            byte_strings(a@) == components(left@),
            byte_strings(b@) == components(right@),
            forall|j: int| 0 <= j < i ==> #[trigger] byte_strings(a@)[j] == byte_strings(b@)[j],
        decreases a.len() - i,
    {
        if !same_bytes(a[i].as_slice(), b[i].as_slice()) {
            assert(byte_strings(a@)[i as int] != byte_strings(b@)[i as int]);
            return false;
        }
        i += 1;
    }
    assert(byte_strings(a@) =~= byte_strings(b@));
    true
}

fn holds_separator(name: &[u8]) -> (r: bool)
    ensures
        r == name@.contains(SEPARATOR),
{
    let mut i: usize = 0;
    while i < name.len()
        invariant
            i <= name.len(),
            forall|j: int| 0 <= j < i ==> name@[j] != SEPARATOR,
        decreases name.len() - i,
    {
        if name[i] == SEPARATOR {
            return true;
        }
        i += 1;
    }
    false
}

fn names_file(name: &[u8]) -> (r: bool)
    ensures
        r == is_plain_name(name@),
{
    proof {
        if name@.len() == 1 && name@[0] == DOT {
            assert(name@ =~= seq![DOT]);
        }
        if name@.len() == 2 && name@[0] == DOT && name@[1] == DOT {
            assert(name@ =~= seq![DOT, DOT]);
        }
    }
    name.len() > 0 && !holds_separator(name) && !(name.len() == 1 && name[0] == DOT) && !(name.len()
        == 2 && name[0] == DOT && name[1] == DOT)
}

/// Whether `path` names something in a directory.
pub fn path_has_parent(path: &[u8]) -> (r: bool)
    ensures
        r == has_parent(path@),
{
    let parts = path_components(path);
    if parts.len() == 0 {
        assert(components(path@).len() == 0);
        return false;
    }
    let last: &[u8] = parts[parts.len() - 1].as_slice();
    assert(components(path@).last() == last@);
    proof {
        if last@.len() == 1 && last@[0] == SEPARATOR {
            assert(last@ =~= seq![SEPARATOR]);
        }
    }
    last.len() != 1 || last[0] != SEPARATOR
}

/// The file name of `path` without its extension.
pub fn path_file_stem(path: &[u8]) -> (found: Option<Vec<u8>>)
    ensures
        match found {
            Some(bytes) => file_stem(path@) == Some(bytes@),
            None => file_stem(path@) is None,
        },
{
    let parts = path_components(path);
    if parts.len() == 0 {
        assert(components(path@).len() == 0);
        return None;
    }
    let name: &[u8] = parts[parts.len() - 1].as_slice();
    assert(components(path@).last() == name@);
    if !names_file(name) {
        return None;
    }
    let mut end: usize = name.len();
    assert(name@.take(name@.len() as int) =~= name@);
    while end > 0 && name[end - 1] != DOT
        invariant
            end <= name.len(),
            last_dot(name@.take(end as int)) == last_dot(name@),
        decreases end,
    {
        assert(name@.take(end as int).drop_last() =~= name@.take(end - 1));
        end -= 1;
    }
    assert(last_dot(name@) == end - 1);
    if end > 1 {
        Some(copied(name, end - 1))
    } else {
        Some(owned(name))
    }
}

/// The components of a path that is one segment: that segment, unless it is empty.
pub proof fn lemma_single_segment(segment: Seq<u8>)
    requires
        !segment.contains(SEPARATOR),
    ensures
        components(segment) == if segment.len() == 0 {
            Seq::<Seq<u8>>::empty()
        } else {
            seq![segment]
        },
{
    reveal_with_fuel(significant_segments, 2);
    lemma_segments_extended(Seq::empty(), segment);
    assert(Seq::<u8>::empty() + segment =~= segment);
    assert(segments(Seq::<u8>::empty()) =~= seq![Seq::<u8>::empty()]);
    assert(segments(segment) =~= seq![segment]);
    assert(seq![segment].drop_last() =~= Seq::<Seq<u8>>::empty());
    if segment.len() > 0 {
        assert(segment.contains(segment[0]));
        assert(components(segment) =~= seq![segment]);
    } else {
        assert(components(segment) =~= Seq::<Seq<u8>>::empty());
    }
}

/// One more segment is one more component, unless it is empty or a dot: those add
/// nothing.
pub proof fn lemma_one_more_segment(base: Seq<u8>, segment: Seq<u8>)
    requires
        base.len() > 0,
        !segment.contains(SEPARATOR),
    ensures
        components(base.push(SEPARATOR) + segment) == if segment.len() == 0 || segment == seq![
            DOT,
        ] {
            components(base)
        } else {
            components(base).push(segment)
        },
{
    lemma_segments_nonempty(base);
    let slashed = base.push(SEPARATOR);
    let pieces = segments(base);
    lemma_segments_extended(slashed, segment);
    assert(slashed.drop_last() =~= base);
    assert(segments(slashed) =~= pieces.push(Seq::empty()));
    assert(segments(slashed).drop_last() =~= pieces);
    assert(Seq::<u8>::empty() + segment =~= segment);
    assert(segments(slashed + segment) =~= pieces.push(segment));
    assert(pieces.push(segment).drop_last() =~= pieces);
    assert((slashed + segment)[0] == base[0]);
    if segment.len() == 0 || segment == seq![DOT] {
        assert(components(slashed + segment) =~= components(base));
    } else {
        assert(components(slashed + segment) =~= components(base).push(segment));
    }
}

/// A segment below the root is a component behind the root, unless it is empty or a dot.
pub proof fn lemma_segment_below_the_root(segment: Seq<u8>)
    requires
        !segment.contains(SEPARATOR),
    ensures
        components(seq![SEPARATOR] + segment) == if segment.len() == 0 || segment == seq![DOT] {
            seq![seq![SEPARATOR]]
        } else {
            seq![seq![SEPARATOR], segment]
        },
{
    reveal_with_fuel(significant_segments, 3);
    let slash = seq![SEPARATOR];
    let path = slash + segment;
    assert(slash.drop_last() =~= Seq::<u8>::empty());
    assert(segments(Seq::<u8>::empty()) =~= seq![Seq::<u8>::empty()]);
    assert(segments(slash) =~= seq![Seq::<u8>::empty(), Seq::<u8>::empty()]);
    lemma_segments_extended(slash, segment);
    assert(Seq::<u8>::empty() + segment =~= segment);
    assert(segments(path) =~= seq![Seq::<u8>::empty(), segment]);
    assert(segments(path).drop_last() =~= seq![Seq::<u8>::empty()]);
    assert(seq![Seq::<u8>::empty()].drop_last() =~= Seq::<Seq<u8>>::empty());
    assert(path[0] == SEPARATOR);
    if segment.len() == 0 || segment == seq![DOT] {
        assert(components(path) =~= seq![seq![SEPARATOR]]);
    } else {
        assert(components(path) =~= seq![seq![SEPARATOR], segment]);
    }
}

/// A joined path is the directory, the name, and between them a separator, unless the
/// directory is nothing or ends with one.
pub proof fn lemma_joined_bytes(base: Seq<u8>, name: Seq<u8>)
    ensures
        base.is_prefix_of(joined(base, name)),
        name.is_suffix_of(joined(base, name)),
        joined(base, name).len() == base.len() + name.len() + (if base.len() > 0 && base.last()
            != SEPARATOR {
            1int
        } else {
            0
        }),
        base.len() > 0 ==> joined(base, name)[joined(base, name).len() - name.len() - 1]
            == SEPARATOR,
{
}

/// What is joined to a directory is found there: it has a parent, and its file name
/// without the extension is that of the name.
pub proof fn lemma_joined_names(base: Seq<u8>, name: Seq<u8>)
    requires
        is_plain_name(name),
    ensures
        has_parent(joined(base, name)),
        file_name(joined(base, name)) == Some(name),
        file_stem(joined(base, name)) == Some(stem(name)),
{
    lemma_joined_components(base, name);
    assert(components(joined(base, name)).last() == name);
    if name == seq![SEPARATOR] {
        assert(name[0] == SEPARATOR);
        assert(name.contains(name[0]));
    }
}

/// A path has a parent unless it has no component or its last one is the root.
pub proof fn lemma_parents(path: Seq<u8>)
    ensures
        has_parent(path) <==> components(path).len() > 0 && components(path).last() != seq![
            SEPARATOR,
        ],
        file_name(path) is Some ==> has_parent(path) && file_name(path) == Some(
            components(path).last(),
        ),
        file_stem(path) is Some <==> file_name(path) is Some,
{
    if file_name(path) is Some && file_name(path)->0 == seq![SEPARATOR] {
        let name = file_name(path)->0;
        assert(name[0] == SEPARATOR);
        assert(name.contains(name[0]));
    }
}

proof fn lemma_last_dot(name: Seq<u8>)
    ensures
        -1 <= last_dot(name) < name.len(),
        last_dot(name) >= 0 ==> name[last_dot(name)] == DOT,
        forall|i: int| last_dot(name) < i < name.len() ==> #[trigger] name[i] != DOT,
    decreases name.len(),
{
    if name.len() > 0 && name.last() != DOT {
        lemma_last_dot(name.drop_last());
        assert forall|i: int| last_dot(name) < i < name.len() implies #[trigger] name[i] != DOT by {
            if i < name.len() - 1 {
                assert(name.drop_last()[i] == name[i]);
            }
        }
    }
}

/// What stands before the last dot of a name is its stem, whatever extension follows;
/// and a name without a dot, but for one at its start, is its own stem.
pub proof fn lemma_stems(front: Seq<u8>, extension: Seq<u8>)
    requires
        !extension.contains(DOT),
    ensures
        front.len() > 0 ==> stem(front.push(DOT) + extension) == front,
        stem(extension) == extension,
        stem(seq![DOT] + extension) == seq![DOT] + extension,
{
    assert forall|i: int| 0 <= i < extension.len() implies #[trigger] extension[i] != DOT by {
        assert(extension.contains(extension[i]));
    }
    let name = front.push(DOT) + extension;
    lemma_last_dot(name);
    assert(name[front.len() as int] == DOT);
    assert forall|i: int| front.len() < i < name.len() implies #[trigger] name[i] != DOT by {
        assert(name[i] == extension[i - front.len() - 1]);
    }
    assert(last_dot(name) == front.len());
    assert(name.take(front.len() as int) =~= front);
    lemma_last_dot(extension);
    let hidden = seq![DOT] + extension;
    lemma_last_dot(hidden);
    assert forall|i: int| 0 < i < hidden.len() implies #[trigger] hidden[i] != DOT by {
        assert(hidden[i] == extension[i - 1]);
    }
}

} // verus!
