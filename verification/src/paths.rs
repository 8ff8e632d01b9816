//! Paths of the device and of the host, as texts with slashes.
//!
//! A path names its components between slashes. Empty pieces count for nothing,
//! and so do single dots, except at the front of a relative path.

use crate::text::{
    append, chars_of, complains, copy_text, empty_text, join, join_range, lemma_split_fields,
    lemma_split_join, same_text, split, split_at_char, texts,
};
use vstd::prelude::*;

verus! {

/// The pieces of a path between slashes.
pub open spec fn pieces(path: Seq<char>) -> Seq<Seq<char>> {
    split(path, '/')
}

/// Whether the path with these pieces starts at the root.
pub open spec fn rooted(list: Seq<Seq<char>>) -> bool {
    list.len() > 1 && list[0].len() == 0
}

/// Whether a piece behind the front counts for nothing.
pub open spec fn void(piece: Seq<char>) -> bool {
    piece.len() == 0 || piece == "."@
}

/// Whether a piece names a component.
pub open spec fn counts(list: Seq<Seq<char>>, i: int) -> bool {
    list[i].len() > 0 && !(i > 0 && list[i] == "."@)
}

/// The components among the first pieces.
pub open spec fn named(list: Seq<Seq<char>>, n: int) -> Seq<Seq<char>>
    decreases n,
{
    if n <= 0 {
        seq![]
    } else if counts(list, n - 1) {
        named(list, n - 1).push(list[n - 1])
    } else {
        named(list, n - 1)
    }
}

/// The components of a path, its root left aside.
pub open spec fn components(path: Seq<char>) -> Seq<Seq<char>> {
    named(pieces(path), pieces(path).len() as int)
}

/// The place of the last component among the first pieces, or minus one.
pub open spec fn last_named(list: Seq<Seq<char>>, n: int) -> int
    decreases n,
{
    if n <= 0 {
        -1
    } else if counts(list, n - 1) {
        n - 1
    } else {
        last_named(list, n - 1)
    }
}

/// The number of pieces that hold so many components.
pub open spec fn cut(list: Seq<Seq<char>>, count: nat, n: int) -> int
    decreases list.len() - n,
{
    if n >= list.len() || named(list, n).len() >= count {
        n
    } else {
        cut(list, count, n + 1)
    }
}

/// The first place from a place on whose piece counts.
pub open spec fn past_void(list: Seq<Seq<char>>, n: int) -> int
    decreases list.len() - n,
{
    if n < list.len() && void(list[n]) {
        past_void(list, n + 1)
    } else {
        n
    }
}

/// The end of the pieces up to a place without those at their end that count for
/// nothing.
pub open spec fn before_void(list: Seq<Seq<char>>, from: int, n: int) -> int
    decreases n,
{
    if n > from && n > 0 && void(list[n - 1]) {
        before_void(list, from, n - 1)
    } else {
        n
    }
}

/// The text of the pieces up to a place, as a path of its own.
pub open spec fn front_text(list: Seq<Seq<char>>, end: int) -> Seq<char> {
    if end == 1 && rooted(list) {
        "/"@
    } else {
        join(list.take(end), seq!['/'])
    }
}

/// Whether a path lies beneath a base, or is the base.
pub open spec fn beneath(path: Seq<char>, base: Seq<char>) -> bool {
    let path_pieces = pieces(path);
    let base_pieces = pieces(base);
    if components(base).len() == 0 && !rooted(base_pieces) {
        true
    } else {
        rooted(path_pieces) == rooted(base_pieces) && components(base).is_prefix_of(
            components(path),
        )
    }
}

/// The pieces of a path behind its base, for a base that names something: from
/// one place up to another.
pub open spec fn behind(path: Seq<char>, base: Seq<char>) -> (int, int) {
    let list = pieces(path);
    let start = past_void(list, cut(list, components(base).len(), 0));
    (start, before_void(list, start, list.len() as int))
}

/// The path of a thing relative to a base above it.
pub open spec fn relative(path: Seq<char>, base: Seq<char>) -> Option<Seq<char>> {
    let list = pieces(path);
    if !beneath(path, base) {
        None
    } else if components(base).len() == 0 && !rooted(pieces(base)) {
        Some(front_text(list, before_void(list, 1, list.len() as int)))
    } else {
        let (start, end) = behind(path, base);
        Some(join(list.subrange(start, end), seq!['/']))
    }
}

/// Whether a path climbs, or starts at the root.
pub open spec fn escapes(path: Seq<char>) -> bool {
    rooted(pieces(path)) || pieces(path).contains(".."@)
}

/// The path of a remote entry relative to the source that it was found under. A
/// path that climbs is refused.
pub open spec fn safe_relative(source: Seq<char>, path: Seq<char>) -> Result<
    Seq<char>,
    Seq<char>,
> {
    match relative(path, source) {
        None => Err("prefix not found"@),
        Some(rest) => if escapes(rest) {
            Err("unsafe remote path"@)
        } else {
            Ok(rest)
        },
    }
}

/// Splits a path into its pieces.
fn split_path(path: &str) -> (list: Vec<String>)
    ensures
        texts(list@) == pieces(path@),
        list@.len() >= 1,
{
    let chars: Vec<char> = chars_of(path);
    proof {
        lemma_split_fields(path@, '/');
    }
    let list: Vec<String> = split_at_char(chars.as_slice(), '/');
    assert(texts(list@).len() == list@.len());
    list
}

/// Whether the path with these pieces starts at the root.
fn is_rooted(list: &[String]) -> (result: bool)
    ensures
        result == rooted(texts(list@)),
{
    list.len() > 1 && empty_text(&list[0])
}

/// Whether a piece names a component.
fn is_counted(list: &[String], i: usize) -> (result: bool)
    requires
        i < list@.len(),
    ensures
        result == counts(texts(list@), i as int),
{
    !empty_text(&list[i]) && !(i > 0 && same_text(&list[i], "."))
}

/// Whether a piece behind the front counts for nothing.
fn is_void(piece: &str) -> (result: bool)
    ensures
        result == void(piece@),
{
    empty_text(piece) || same_text(piece, ".")
}

/// Collects the components of a path.
fn collect_components(list: &[String]) -> (names: Vec<String>)
    ensures
        texts(names@) == named(texts(list@), list@.len() as int),
{
    let ghost all = texts(list@);
    let mut names: Vec<String> = Vec::new();
    let mut i: usize = 0;
    assert(texts(names@) =~= seq![]);
    while i < list.len()
        invariant
            i <= list@.len(),
            all == texts(list@),
            texts(names@) == named(all, i as int),
        decreases list@.len() - i,
    {
        if is_counted(list, i) {
            let ghost before = texts(names@);
            names.push(copy_text(&list[i]));
            assert(texts(names@) =~= before.push(all[i as int]));
        }
        i = i + 1;
    }
    names
}

/// Whether a list of texts begins with another.
fn begins(list: &[String], front: &[String]) -> (result: bool)
    ensures
        result == texts(front@).is_prefix_of(texts(list@)),
{
    let ghost all = texts(list@);
    let ghost head = texts(front@);
    if front.len() > list.len() {
        return false;
    }
    let mut i: usize = 0;
    while i < front.len()
        invariant
            i <= front@.len() <= list@.len(),
            all == texts(list@),
            head == texts(front@),
            forall|j: int| 0 <= j < i ==> all[j] == head[j],
        decreases front@.len() - i,
    {
        if !same_text(&list[i], &front[i]) {
            assert(all.subrange(0, head.len() as int)[i as int] != head[i as int]);
            return false;
        }
        assert(all[i as int] == list@[i as int]@);
        i = i + 1;
    }
    assert(head =~= all.subrange(0, head.len() as int));
    true
}

/// Whether a path lies beneath a base, or is the base.
pub fn is_beneath(path: &str, base: &str) -> (result: bool)
    ensures
        result == beneath(path@, base@),
{
    let list: Vec<String> = split_path(path);
    let above: Vec<String> = split_path(base);
    let names: Vec<String> = collect_components(&above);
    assert(texts(names@).len() == names@.len());
    assert(texts(list@).len() == list@.len());
    assert(texts(above@).len() == above@.len());
    let above_rooted = is_rooted(&above);
    if names.len() == 0 && !above_rooted {
        return true;
    }
    let all: Vec<String> = collect_components(&list);
    is_rooted(&list) == above_rooted && begins(&all, &names)
}

/// Finds the number of pieces that hold so many components.
fn find_cut(list: &[String], count: usize) -> (n: usize)
    ensures
        n == cut(texts(list@), count as nat, 0),
        n <= list@.len(),
{
    let ghost all = texts(list@);
    let mut n: usize = 0;
    let mut seen: usize = 0;
    while n < list.len() && seen < count
        invariant
            n <= list@.len(),
            all == texts(list@),
            all.len() == list@.len(),
            seen <= n,
            seen == named(all, n as int).len(),
            cut(all, count as nat, 0) == cut(all, count as nat, n as int),
        decreases list@.len() - n,
    {
        if is_counted(list, n) {
            seen = seen + 1;
        }
        n = n + 1;
    }
    n
}

/// Finds the first piece from a place on that counts.
fn skip_void(list: &[String], from: usize) -> (n: usize)
    requires
        from <= list@.len(),
    ensures
        n == past_void(texts(list@), from as int),
        from <= n <= list@.len(),
{
    let ghost all = texts(list@);
    let mut n: usize = from;
    while n < list.len() && is_void(&list[n])
        invariant
            from <= n <= list@.len(),
            all == texts(list@),
            all.len() == list@.len(),
            past_void(all, from as int) == past_void(all, n as int),
        decreases list@.len() - n,
    {
        assert(all[n as int] == list@[n as int]@);
        n = n + 1;
    }
    assert(n < list@.len() ==> all[n as int] == list@[n as int]@);
    n
}

/// Drops the pieces at the end that count for nothing.
fn drop_void(list: &[String], from: usize, end: usize) -> (n: usize)
    requires
        from <= end <= list@.len(),
    ensures
        n == before_void(texts(list@), from as int, end as int),
        from <= n <= end,
{
    let ghost all = texts(list@);
    let mut n: usize = end;
    while n > from && is_void(&list[n - 1])
        invariant
            from <= n <= end <= list@.len(),
            all == texts(list@),
            before_void(all, from as int, end as int) == before_void(all, from as int, n as int),
        decreases n,
    {
        assert(all[n - 1] == list@[n - 1]@);
        n = n - 1;
    }
    assert(n > from ==> all[n - 1] == list@[n - 1]@);
    n
}

/// The text of the pieces up to a place.
fn front_of(list: &[String], end: usize) -> (text: String)
    requires
        end <= list@.len(),
    ensures
        text@ == front_text(texts(list@), end as int),
{
    if end == 1 && is_rooted(list) {
        return copy_text("/");
    }
    assert(texts(list@).subrange(0, end as int) =~= texts(list@).take(end as int));
    join_range(list, 0, end, '/')
}

/// The path of a thing relative to a base above it.
pub fn strip_base(path: &str, base: &str) -> (rest: Option<String>)
    ensures
        match rest {
            Some(rest) => relative(path@, base@) == Some(rest@),
            None => relative(path@, base@) is None,
        },
{
    if !is_beneath(path, base) {
        return None;
    }
    let list: Vec<String> = split_path(path);
    let above: Vec<String> = split_path(base);
    let names: Vec<String> = collect_components(&above);
    assert(texts(names@).len() == names@.len());
    assert(texts(list@).len() == list@.len());
    assert(texts(above@).len() == above@.len());
    if names.len() == 0 && !is_rooted(&above) {
        let end: usize = drop_void(&list, 1, list.len());
        return Some(front_of(&list, end));
    }
    let start: usize = skip_void(&list, find_cut(&list, names.len()));
    let end: usize = drop_void(&list, start, list.len());
    Some(join_range(&list, start, end, '/'))
}

/// Whether a path climbs, or starts at the root.
fn does_escape(path: &str) -> (result: bool)
    ensures
        result == escapes(path@),
{
    let list: Vec<String> = split_path(path);
    let ghost all = texts(list@);
    if is_rooted(&list) {
        return true;
    }
    let mut i: usize = 0;
    while i < list.len()
        invariant
            i <= list@.len(),
            all == texts(list@),
            all == pieces(path@),
            all.len() == list@.len(),
            forall|j: int| 0 <= j < i ==> all[j] != ".."@,
        decreases list@.len() - i,
    {
        assert(all[i as int] == list@[i as int]@);
        if same_text(&list[i], "..") {
            assert(all.contains(".."@));
            return true;
        }
        i = i + 1;
    }
    false
}

/// The path of a remote entry relative to the source that it was found under.
pub fn safe_relative_remote_path(source: &str, path: &str) -> (rest: Result<String, String>)
    ensures
        match safe_relative(source@, path@) {
            Ok(text) => rest is Ok && rest->Ok_0@ == text,
            Err(error) => complains(rest, error),
        },
{
    match strip_base(path, source) {
        None => Err(copy_text("prefix not found")),
        Some(rest) => if does_escape(&rest) {
            Err(copy_text("unsafe remote path"))
        } else {
            Ok(rest)
        },
    }
}

/// A path without the slashes at its end.
pub open spec fn without_slashes(path: Seq<char>) -> Seq<char>
    decreases path.len(),
{
    if path.len() > 0 && path.last() == '/' {
        without_slashes(path.drop_last())
    } else {
        path
    }
}

/// A remote base with a path behind it.
pub open spec fn remote_joined(base: Seq<char>, component: Seq<char>) -> Seq<char> {
    if component.len() == 0 {
        without_slashes(base)
    } else {
        without_slashes(base) + "/"@ + component
    }
}

/// Puts a path behind a remote base.
pub fn remote_join(base: &str, component: &str) -> (path: String)
    ensures
        path@ == remote_joined(base@, component@),
{
    let chars: Vec<char> = chars_of(base);
    let mut end: usize = chars.len();
    assert(chars@.take(end as int) =~= chars@);
    while end > 0 && chars[end - 1] == '/'
        invariant
            end <= chars@.len(),
            without_slashes(chars@.take(end as int)) == without_slashes(chars@),
        decreases end,
    {
        assert(chars@.take(end as int).drop_last() =~= chars@.take(end - 1));
        end = end - 1;
    }
    let mut path: String = crate::text::string_of(
        vstd::slice::slice_subrange(chars.as_slice(), 0, end),
    );
    assert(path@ =~= chars@.take(end as int));
    if !empty_text(component) {
        append(&mut path, "/");
        append(&mut path, component);
    }
    path
}

/// A path with another behind it; one that starts at the root takes its place.
pub open spec fn joined(base: Seq<char>, path: Seq<char>) -> Seq<char> {
    if path.len() > 0 && path[0] == '/' {
        path
    } else if base.len() == 0 || base.last() == '/' {
        base + path
    } else {
        base + "/"@ + path
    }
}

/// Puts a path behind another.
pub fn join_path(base: &str, path: &str) -> (result: String)
    ensures
        result@ == joined(base@, path@),
{
    let tail: Vec<char> = chars_of(path);
    if tail.len() > 0 && tail[0] == '/' {
        return copy_text(path);
    }
    let head: Vec<char> = chars_of(base);
    let mut result: String = copy_text(base);
    if !(head.len() == 0 || head[head.len() - 1] == '/') {
        append(&mut result, "/");
    }
    append(&mut result, path);
    result
}

/// The last component of a path, where it is a name.
pub open spec fn base_name(path: Seq<char>) -> Option<Seq<char>> {
    let names = components(path);
    if names.len() == 0 || names.last() == ".."@ || names.last() == "."@ {
        None
    } else {
        Some(names.last())
    }
}

/// Finds the last component of a path, where it is a name.
pub fn file_name(path: &str) -> (name: Option<String>)
    ensures
        match name {
            Some(name) => base_name(path@) == Some(name@),
            None => base_name(path@) is None,
        },
{
    let list: Vec<String> = split_path(path);
    let names: Vec<String> = collect_components(&list);
    let ghost all = texts(names@);
    assert(texts(list@).len() == list@.len());
    if names.len() == 0 {
        return None;
    }
    let last: &String = &names[names.len() - 1];
    assert(all.last() == last@);
    if same_text(last, "..") || same_text(last, ".") {
        None
    } else {
        Some(copy_text(last))
    }
}

/// The number of pieces of the parent of the path with these pieces, where it
/// has one. A path of one piece has the empty path for its parent.
pub open spec fn parent_end(list: Seq<Seq<char>>) -> Option<int> {
    let last = last_named(list, list.len() as int);
    if last < 0 {
        None
    } else if last == 0 {
        Some(0)
    } else {
        Some(before_void(list, 1, last))
    }
}

/// The parent of a path: the path without its last component.
pub open spec fn parent(path: Seq<char>) -> Option<Seq<char>> {
    match parent_end(pieces(path)) {
        Some(end) => Some(front_text(pieces(path), end)),
        None => None,
    }
}

/// The last component lies before the end.
proof fn lemma_last_named(list: Seq<Seq<char>>, n: int)
    requires
        0 <= n <= list.len(),
    ensures
        -1 <= last_named(list, n) < n || n == 0,
    decreases n,
{
    if n > 0 && !counts(list, n - 1) {
        lemma_last_named(list, n - 1);
    }
}

/// Finds the number of pieces of the parent.
fn find_parent(list: &[String]) -> (end: Option<usize>)
    ensures
        match end {
            Some(end) => parent_end(texts(list@)) == Some(end as int) && end < list@.len(),
            None => parent_end(texts(list@)) is None,
        },
{
    let ghost all = texts(list@);
    let mut n: usize = list.len();
    while n > 0 && !is_counted(list, n - 1)
        invariant
            n <= list@.len(),
            all == texts(list@),
            last_named(all, list@.len() as int) == last_named(all, n as int),
        decreases n,
    {
        n = n - 1;
    }
    assert(all.len() == list@.len());
    if n == 0 {
        None
    } else if n == 1 {
        Some(0)
    } else {
        Some(drop_void(list, 1, n - 1))
    }
}

/// Finds the parent of a path.
pub fn parent_of(path: &str) -> (above: Option<String>)
    ensures
        match above {
            Some(above) => parent(path@) == Some(above@),
            None => parent(path@) is None,
        },
{
    let list: Vec<String> = split_path(path);
    match find_parent(&list) {
        Some(end) => Some(front_of(&list, end)),
        None => None,
    }
}

/// A path with its last component, where that is a name, replaced.
pub open spec fn beside(path: Seq<char>, name: Seq<char>) -> Seq<char> {
    match (base_name(path), parent(path)) {
        (Some(_), Some(above)) => joined(above, name),
        _ => joined(path, name),
    }
}

/// Replaces the last component of a path, where that is a name.
pub fn with_file_name(path: &str, name: &str) -> (result: String)
    ensures
        result@ == beside(path@, name@),
{
    match (file_name(path), parent_of(path)) {
        (Some(_), Some(above)) => join_path(&above, name),
        _ => join_path(path, name),
    }
}

/// The last component is one that counts.
proof fn lemma_last_counts(list: Seq<Seq<char>>, n: int)
    requires
        0 <= n <= list.len(),
        last_named(list, n) >= 0,
    ensures
        last_named(list, n) < n,
        list[last_named(list, n)].len() > 0,
    decreases n,
{
    if n > 0 && !counts(list, n - 1) {
        lemma_last_counts(list, n - 1);
    }
}

/// Dropping pieces that count for nothing stays within the range.
proof fn lemma_before_void(list: Seq<Seq<char>>, from: int, n: int)
    requires
        0 <= from <= n <= list.len(),
    ensures
        from <= before_void(list, from, n) <= n,
    decreases n,
{
    if n > from && void(list[n - 1]) {
        lemma_before_void(list, from, n - 1);
    }
}

/// The parent of a path is shorter than the path.
pub proof fn lemma_parent_shorter(path: Seq<char>)
    requires
        parent(path) is Some,
    ensures
        parent(path)->0.len() < path.len(),
{
    let list = pieces(path);
    crate::text::lemma_split_whole(path, '/');
    let last = last_named(list, list.len() as int);
    lemma_last_counts(list, list.len() as int);
    assert(list[last].len() > 0);
    if last == 0 {
        crate::text::lemma_join_shorter(list, '/', 0);
        assert(list.take(0) =~= seq![]);
    } else {
        lemma_before_void(list, 1, last);
        let end = before_void(list, 1, last);
        if end == 1 && rooted(list) {
            reveal_strlit("/");
            lemma_piece_fits(list, last);
            crate::text::lemma_join_shorter(list, '/', 1);
            assert(list.take(1) =~= seq![list[0]]);
            lemma_two(list, last);
        } else {
            crate::text::lemma_join_shorter(list, '/', end);
        }
    }
}

/// A joined text is at least as long as each of its pieces.
proof fn lemma_piece_fits(list: Seq<Seq<char>>, i: int)
    requires
        0 <= i < list.len(),
    ensures
        join(list, seq!['/']).len() >= list[i].len(),
    decreases list.len(),
{
    if list.len() > 1 && i < list.len() - 1 {
        lemma_piece_fits(list.drop_last(), i);
    }
}

/// A piece that is not the first comes behind a slash.
proof fn lemma_two(list: Seq<Seq<char>>, i: int)
    requires
        0 < i < list.len(),
        list[i].len() > 0,
    ensures
        join(list, seq!['/']).len() >= 2,
    decreases list.len(),
{
    if i < list.len() - 1 {
        lemma_two(list.drop_last(), i);
    }
}

/// A path and the paths above it, as far as they lie beneath a root.
pub open spec fn ancestors_within(path: Seq<char>, root: Seq<char>) -> Seq<Seq<char>>
    decreases path.len(),
{
    if !beneath(path, root) {
        seq![]
    } else {
        match parent(path) {
            Some(above) => {
                proof {
                    lemma_parent_shorter(path);
                }
                seq![path] + ancestors_within(above, root)
            },
            None => seq![path],
        }
    }
}

/// The paths that must not be links before a download is put at a place: that
/// place, for a directory, or else its parent, and what lies above, up to the
/// root of the download.
pub open spec fn download_ancestors(root: Seq<char>, local: Seq<char>, directory: bool) -> Seq<
    Seq<char>,
> {
    if directory {
        ancestors_within(local, root)
    } else {
        match parent(local) {
            Some(above) => ancestors_within(above, root),
            None => ancestors_within(root, root),
        }
    }
}

/// Lists the paths that must not be links before a download is put at a place.
pub fn check_pull_ancestors(root: &str, local: &str, directory: bool) -> (list: Vec<String>)
    ensures
        texts(list@) == download_ancestors(root@, local@, directory),
{
    let mut path: String = if directory {
        copy_text(local)
    } else {
        match parent_of(local) {
            Some(above) => above,
            None => copy_text(root),
        }
    };
    let ghost end = path@;
    let mut list: Vec<String> = Vec::new();
    assert(texts(list@) =~= seq![]);
    assert(texts(list@) + ancestors_within(end, root@) =~= ancestors_within(end, root@));
    while is_beneath(&path, root)
        invariant
            texts(list@) + ancestors_within(path@, root@) == ancestors_within(end, root@),
            ancestors_within(end, root@) == download_ancestors(root@, local@, directory),
        decreases path@.len(),
    {
        let ghost before = texts(list@);
        let ghost here = path@;
        let above: Option<String> = parent_of(&path);
        list.push(path);
        assert(texts(list@) =~= before.push(here));
        match above {
            Some(above) => {
                proof {
                    lemma_parent_shorter(here);
                    assert(before + (seq![here] + ancestors_within(above@, root@)) =~= before.push(
                        here,
                    ) + ancestors_within(above@, root@));
                }
                path = above;
            },
            None => {
                assert(before + seq![here] =~= before.push(here));
                return list;
            },
        }
    }
    assert(texts(list@) + ancestors_within(path@, root@) =~= texts(list@));
    list
}

/// The components of a longer list of pieces begin with those of its front.
proof fn lemma_named_front(front: Seq<Seq<char>>, list: Seq<Seq<char>>, n: int)
    requires
        0 <= n <= front.len() <= list.len(),
        forall|i: int| 0 <= i < n ==> front[i] == list[i],
    ensures
        named(front, n) == named(list, n),
    decreases n,
{
    if n > 0 {
        lemma_named_front(front, list, n - 1);
        assert(front[n - 1] == list[n - 1]);
    }
}

/// More pieces name no fewer components, and the same ones first.
proof fn lemma_named_grows(list: Seq<Seq<char>>, n: int, m: int)
    requires
        0 <= n <= m <= list.len(),
    ensures
        named(list, n).is_prefix_of(named(list, m)),
    decreases m,
{
    if n == m {
        assert(named(list, n) =~= named(list, m).subrange(0, named(list, n).len() as int));
    } else {
        lemma_named_grows(list, n, m - 1);
        let low = named(list, n);
        assert(low =~= named(list, m).subrange(0, low.len() as int)) by {
            assert(low == named(list, m - 1).subrange(0, low.len() as int));
            assert forall|i: int| 0 <= i < low.len() implies low[i] == named(list, m)[i] by {
                assert(low[i] == named(list, m - 1).subrange(0, low.len() as int)[i]);
            }
        }
    }
}

/// A remote entry whose path was found safe is put beneath the place it is
/// downloaded to: what is put behind the place does not climb and does not
/// start at the root.
pub proof fn safe_paths_stay_beneath(source: Seq<char>, path: Seq<char>, place: Seq<char>)
    requires
        safe_relative(source, path) is Ok,
    ensures
        ({
            let rest = safe_relative(source, path)->Ok_0;
            &&& beneath(joined(place, rest), place)
            &&& !pieces(rest).contains(".."@)
            &&& !(rest.len() > 0 && rest[0] == '/')
        }),
{
    let rest = safe_relative(source, path)->Ok_0;
    let tail = pieces(rest);
    reveal_strlit("/");
    lemma_split_fields(rest, '/');
    crate::text::lemma_split_whole(rest, '/');
    if rest.len() > 0 && rest[0] == '/' {
        let behind = rest.skip(1);
        assert(rest =~= Seq::<char>::empty() + seq!['/'] + behind);
        lemma_split_join(seq![], '/', behind);
        lemma_split_fields(behind, '/');
        assert(split(Seq::<char>::empty(), '/') =~= seq![Seq::<char>::empty()]);
        assert(tail[0] =~= Seq::<char>::empty());
        assert(rooted(tail));
    }
    let whole = joined(place, rest);
    let front = pieces(place);
    lemma_split_fields(place, '/');
    if place.len() == 0 {
        assert(front =~= seq![place]);
        assert(named(front, 1) =~= seq![]) by {
            assert(named(front, 0) =~= seq![]);
        }
    } else if place.last() == '/' {
        let stem = place.drop_last();
        assert(place =~= stem + seq!['/'] + Seq::<char>::empty());
        assert(whole =~= stem + seq!['/'] + rest);
        lemma_split_join(stem, '/', seq![]);
        lemma_split_join(stem, '/', rest);
        assert(split(Seq::<char>::empty(), '/') =~= seq![Seq::<char>::empty()]);
        let list = pieces(whole);
        let n = pieces(stem).len() as int;
        lemma_split_fields(stem, '/');
        assert(front =~= pieces(stem) + seq![Seq::<char>::empty()]);
        assert(front[n].len() == 0);
        assert(named(front, n + 1) == named(front, n));
        lemma_named_front(front, list, n);
        lemma_named_grows(list, n, list.len() as int);
        assert(list[0] == front[0]);
    } else {
        assert(whole =~= place + seq!['/'] + rest);
        lemma_split_join(place, '/', rest);
        let list = pieces(whole);
        let n = front.len() as int;
        lemma_named_front(front, list, n);
        lemma_named_grows(list, n, list.len() as int);
        assert(list[0] == front[0]);
        if front.len() == 1 {
            crate::text::lemma_split_whole(place, '/');
            assert(front[0] == place);
        }
    }
}

/// Whether a text is a plain name: not empty, without a slash, and neither of the two
/// that stand for a directory itself and for the one above.
pub open spec fn plain_name(name: Seq<char>) -> bool {
    name.len() > 0 && !name.contains('/') && name != "."@ && name != ".."@
}

/// Whether a path ends in a component: it is not empty and ends neither in a slash nor
/// in a slash and a dot.
pub open spec fn ends_in_a_component(path: Seq<char>) -> bool {
    &&& path.len() > 0
    &&& path.last() != '/'
    &&& !(path.len() > 1 && path.last() == '.' && path[path.len() - 2] == '/')
}

/// The last piece of a path that ends in a component counts.
proof fn lemma_last_piece(path: Seq<char>)
    requires
        ends_in_a_component(path),
    ensures
        ({
            let list = pieces(path);
            &&& list.len() > 0
            &&& list.last().len() > 0
            &&& list.len() > 1 ==> !void(list.last())
            &&& counts(list, list.len() - 1)
            &&& join(list, seq!['/']) == path
        }),
{
    let list = pieces(path);
    reveal_strlit(".");
    lemma_split_fields(path, '/');
    crate::text::lemma_split_whole(path, '/');
    if list.len() > 1 {
        let front = join(list.drop_last(), seq!['/']) + seq!['/'];
        assert(path == front + list.last());
        assert(front.last() == '/');
        if list.last().len() == 0 {
            assert(path =~= front);
        }
        if list.last() == "."@ {
            assert(path[path.len() - 2] == front.last());
        }
    } else {
        assert(list[0] == path);
    }
}

/// A path is its parent, a slash and its name, and can be taken apart again. What the
/// parent names comes first among what the path names.
pub proof fn paths_are_a_parent_and_a_name(above: Seq<char>, name: Seq<char>)
    requires
        ends_in_a_component(above),
        plain_name(name),
    ensures
        parent(above + "/"@ + name) == Some(above),
        base_name(above + "/"@ + name) == Some(name),
        components(above + "/"@ + name) == components(above).push(name),
        parent(name) == Some(Seq::<char>::empty()),
        base_name(name) == Some(name),
        parent("/"@ + name) == Some("/"@),
        base_name("/"@ + name) == Some(name),
{
    reveal_strlit("/");
    lemma_last_piece(above);
    lemma_single(name);
    lemma_child(above, name);
    lemma_child(seq![], name);
    let empty = Seq::<char>::empty();
    assert("/"@ + name =~= empty + "/"@ + name);
    assert(split(empty, '/') =~= seq![empty]);
    let list = pieces("/"@ + name);
    assert(list =~= seq![empty, name]);
    assert(last_named(list, 2) == 1);
    assert(before_void(list, 1, 1) == 1);
    let front = pieces(above);
    let full = pieces(above + "/"@ + name);
    let k = front.len() as int;
    assert(last_named(full, k + 1) == k);
    assert(before_void(full, 1, k) == k) by {
        if k > 1 {
            assert(full[k - 1] == front[k - 1]);
        }
    }
    assert(full.take(k) =~= front);
    if k == 1 {
        assert(full[0] == front[0]);
        assert(!rooted(full));
    }
    assert(front_text(full, k) == above);
    assert(pieces(name) =~= seq![name]);
    assert(last_named(pieces(name), 1) == 0);
    assert(pieces(name).take(0) =~= seq![]);
    assert(join(Seq::<Seq<char>>::empty(), seq!['/']) =~= empty);
}

/// The pieces of a plain name.
proof fn lemma_single(name: Seq<char>)
    requires
        plain_name(name),
    ensures
        pieces(name) == seq![name],
        components(name) == seq![name],
{
    crate::text::splitting_and_joining(seq![name], '/', name);
    assert(pieces(name) =~= seq![name]);
    assert(named(pieces(name), 0) =~= seq![]);
    assert(components(name) =~= seq![name]);
}

/// The pieces of a path with a plain name behind it.
proof fn lemma_child(above: Seq<char>, name: Seq<char>)
    requires
        plain_name(name),
    ensures
        pieces(above + "/"@ + name) == pieces(above).push(name),
        components(above + "/"@ + name) == components(above).push(name),
        base_name(above + "/"@ + name) == Some(name),
{
    reveal_strlit("/");
    lemma_single(name);
    assert("/"@ =~= seq!['/']);
    lemma_split_join(above, '/', name);
    lemma_split_fields(above, '/');
    let front = pieces(above);
    let list = pieces(above + "/"@ + name);
    assert(list =~= front.push(name));
    let k = front.len() as int;
    lemma_named_front(front, list, k);
    assert(list[k] == name);
    assert(named(list, k + 1) == named(list, k).push(name));
}

/// What stands behind a path is what is left of a longer one, and nothing is left of the
/// path itself. A path that is not beneath another has no such rest.
pub proof fn what_stands_behind_a_path_is_left(base: Seq<char>, rest: Seq<char>, path: Seq<char>)
    requires
        ends_in_a_component(base),
        ends_in_a_component(rest),
        rest[0] != '/',
        rest.len() == 1 || rest[0] != '.' || rest[1] != '/',
        rest != "."@,
    ensures
        relative(base + "/"@ + rest, base) == Some(rest),
        relative(base, base) == Some(Seq::<char>::empty()),
        !beneath(path, base) ==> relative(path, base) is None,
{
    reveal_strlit("/");
    reveal_strlit(".");
    lemma_last_piece(base);
    lemma_last_piece(rest);
    let front = pieces(base);
    let tail = pieces(rest);
    let whole = base + "/"@ + rest;
    let list = pieces(whole);
    assert("/"@ =~= seq!['/']);
    lemma_split_join(base, '/', rest);
    assert(list =~= front + tail);
    let k = front.len() as int;
    let n = list.len() as int;
    lemma_named_front(front, list, k);
    lemma_named_grows(list, k, n);
    let count = components(base).len();
    assert(components(base) == named(list, k));
    assert(list[k - 1] == front[k - 1]);
    assert(counts(list, k - 1));
    assert(count > 0);
    assert(rooted(list) == rooted(front)) by {
        assert(list[0] == front[0]);
        if k == 1 {
            assert(front[0].len() > 0);
        }
    }
    lemma_cut(list, k, 0);
    lemma_cut(front, k, 0);
    lemma_first_piece(rest);
    assert(list[k] == tail[0]);
    assert(past_void(list, k) == k);
    assert(list[n - 1] == tail[tail.len() - 1]);
    assert(before_void(list, k, n) == n) by {
        if tail.len() == 1 {
            assert(!void(tail[0]));
        }
    }
    assert(list.subrange(k, n) =~= tail);
    assert(components(base).is_prefix_of(components(base)));
    assert(past_void(front, k) == k);
    assert(before_void(front, k, k) == k);
    assert(front.subrange(k, k) =~= seq![]);
    assert(join(Seq::<Seq<char>>::empty(), seq!['/']) =~= Seq::<char>::empty());
}

/// The first piece of a path that does not begin with a slash, or a dot and a slash.
proof fn lemma_first_piece(rest: Seq<char>)
    requires
        rest.len() > 0,
        rest[0] != '/',
        rest.len() == 1 || rest[0] != '.' || rest[1] != '/',
        rest != "."@,
    ensures
        !void(pieces(rest)[0]),
{
    reveal_strlit(".");
    let list = pieces(rest);
    let n = crate::text::span(rest, '/') as int;
    crate::text::lemma_span(rest, '/');
    assert(list[0] == if n >= rest.len() {
        rest
    } else {
        rest.take(n)
    });
    if n < rest.len() {
        if rest.take(n) == "."@ {
            assert(rest.take(n)[0] == rest[0]);
            assert(rest[1] == '/');
        }
    }
}

/// The pieces are cut behind the last one that counts.
proof fn lemma_cut(list: Seq<Seq<char>>, k: int, n: int)
    requires
        0 <= n <= k <= list.len(),
        0 < k,
        counts(list, k - 1),
    ensures
        cut(list, named(list, k).len(), n) == k,
    decreases k - n,
{
    if n < k {
        lemma_named_grows(list, n, k - 1);
        assert(named(list, n).len() <= named(list, k - 1).len());
        assert(named(list, k).len() == named(list, k - 1).len() + 1);
        lemma_cut(list, k, n + 1);
    }
}

/// A path behind another is put there with one slash between them. One that starts at
/// the root takes the place of the other.
pub proof fn joined_paths_have_one_slash_between(base: Seq<char>, path: Seq<char>)
    requires
        path.len() > 0,
    ensures
        path[0] == '/' ==> joined(base, path) == path,
        path[0] != '/' && base.len() == 0 ==> joined(base, path) == path,
        path[0] != '/' && base.len() > 0 && base.last() != '/' ==> joined(base, path) == base
            + "/"@ + path && joined(base.push('/'), path) == base + "/"@ + path,
{
    reveal_strlit("/");
    assert(base.push('/') + path =~= base + "/"@ + path);
    if base.len() == 0 {
        assert(base + path =~= path);
    }
}

/// A path of the device is put behind another with one slash between them, however many
/// the other ends in. Where nothing is put there the other stays, without its slashes.
pub proof fn remote_paths_have_one_slash_between(base: Seq<char>, component: Seq<char>)
    ensures
        remote_joined(base.push('/'), component) == remote_joined(base, component),
        base.len() == 0 || base.last() != '/' ==> remote_joined(base, component) == if component.len()
            == 0 {
            base
        } else {
            base + "/"@ + component
        },
{
    assert(base.push('/').drop_last() =~= base);
}

/// Two names beneath one path are two paths, and so are any two paths beneath them.
pub proof fn names_part_paths(
    base: Seq<char>,
    left: Seq<char>,
    right: Seq<char>,
    beneath_left: Seq<char>,
    beneath_right: Seq<char>,
)
    requires
        plain_name(left),
        plain_name(right),
        left != right,
    ensures
        remote_joined(remote_joined(base, left), beneath_left) != remote_joined(
            remote_joined(base, right),
            beneath_right,
        ),
{
    reveal_strlit("/");
    let stem = without_slashes(base) + "/"@;
    lemma_named_beneath(base, left, beneath_left);
    lemma_named_beneath(base, right, beneath_right);
    let one = remote_joined(remote_joined(base, left), beneath_left);
    let two = remote_joined(remote_joined(base, right), beneath_right);
    if one == two {
        let n = stem.len() as int;
        assert(one.skip(n) == two.skip(n));
        let behind = one.skip(n);
        crate::text::lemma_span_is(behind, '/', left.len() as int);
        crate::text::lemma_span_is(behind, '/', right.len() as int);
        assert(behind.take(left.len() as int) =~= left);
        assert(behind.take(right.len() as int) =~= right);
    }
}

/// What a path beneath a name looks like.
proof fn lemma_named_beneath(base: Seq<char>, name: Seq<char>, rest: Seq<char>)
    requires
        plain_name(name),
    ensures
        ({
            let path = remote_joined(remote_joined(base, name), rest);
            let stem = without_slashes(base) + "/"@;
            let n = stem.len() as int;
            let behind = path.skip(n);
            &&& path == stem + behind
            &&& n + name.len() <= path.len()
            &&& behind.take(name.len() as int) == name
            &&& forall|i: int| 0 <= i < name.len() ==> behind[i] != '/'
            &&& name.len() < behind.len() ==> behind[name.len() as int] == '/'
        }),
{
    reveal_strlit("/");
    let stem = without_slashes(base) + "/"@;
    let place = stem + name;
    assert(remote_joined(base, name) == place);
    assert forall|i: int| 0 <= i < name.len() implies name[i] != '/' by {
        assert(name.contains(name[i]));
    }
    assert(place.last() == name.last());
    assert(without_slashes(place) == place);
    let path = remote_joined(place, rest);
    let behind = path.skip(stem.len() as int);
    assert(path =~= stem + behind);
    assert(behind.take(name.len() as int) =~= name);
    assert forall|i: int| 0 <= i < name.len() implies behind[i] != '/' by {
        assert(behind[i] == name[i]);
    }
}

/// A path with a piece that climbs, or one that starts at the root, escapes; and what is
/// left of a path that was found safe does neither.
pub proof fn climbing_paths_are_refused(source: Seq<char>, path: Seq<char>)
    ensures
        match relative(path, source) {
            None => safe_relative(source, path) is Err,
            Some(rest) => {
                let climbs = split(rest, '/').contains(".."@);
                let starts_at_the_root = rest.len() > 0 && rest[0] == '/';
                &&& climbs || starts_at_the_root ==> safe_relative(source, path) == Err::<
                    Seq<char>,
                    Seq<char>,
                >("unsafe remote path"@)
                &&& !climbs && !starts_at_the_root ==> safe_relative(source, path) == Ok::<
                    Seq<char>,
                    Seq<char>,
                >(rest)
            },
        },
{
    if let Some(rest) = relative(path, source) {
        let n = crate::text::span(rest, '/') as int;
        crate::text::lemma_span(rest, '/');
        if rest.len() > 0 && rest[0] == '/' {
            assert(n == 0);
            lemma_split_fields(rest.skip(1), '/');
            assert(pieces(rest)[0] =~= rest.take(0));
            assert(rooted(pieces(rest)));
        }
        if rooted(pieces(rest)) {
            assert(n < rest.len());
            assert(rest.take(n).len() == 0);
        }
    }
}

/// Before something is put beneath a path of the host, every path above it is looked at,
/// from the one that it is put into up to the root of the download, and none beyond.
pub proof fn every_path_above_is_looked_at(root: Seq<char>, above: Seq<char>, name: Seq<char>)
    requires
        ends_in_a_component(above),
        plain_name(name),
    ensures
        ({
            let path = above + "/"@ + name;
            &&& download_ancestors(root, path, false) == ancestors_within(above, root)
            &&& download_ancestors(root, path, true) == ancestors_within(path, root)
            &&& ancestors_within(path, root) == if beneath(path, root) {
                seq![path] + ancestors_within(above, root)
            } else {
                seq![]
            }
            &&& !beneath(above, root) ==> ancestors_within(above, root).len() == 0
            &&& beneath(root, root)
            &&& ancestors_within(root, root).len() > 0 && ancestors_within(root, root)[0] == root
        }),
{
    paths_are_a_parent_and_a_name(above, name);
    lemma_parent_shorter(above + "/"@ + name);
    let names = components(root);
    assert(names =~= names.subrange(0, names.len() as int));
    assert(beneath(root, root));
}

/// What a component beneath a path is: the components of the path come first.
pub proof fn only_what_has_its_components_is_beneath(path: Seq<char>, base: Seq<char>)
    requires
        base.len() > 0,
        ends_in_a_component(base),
    ensures
        beneath(path, base) <==> {
            &&& (path.len() > 0 && path[0] == '/') == (base[0] == '/')
            &&& components(base).len() <= components(path).len()
            &&& forall|i: int|
                0 <= i < components(base).len() ==> components(path)[i] == components(base)[i]
        },
{
    lemma_last_piece(base);
    lemma_rooted(path);
    lemma_rooted(base);
    let list = pieces(base);
    let k = list.len() as int;
    assert(named(list, k) == named(list, k - 1).push(list[k - 1]));
    let names = components(base);
    let all = components(path);
    if names.len() <= all.len() && forall|i: int| 0 <= i < names.len() ==> all[i] == names[i] {
        assert(names =~= all.subrange(0, names.len() as int));
    }
    if names.is_prefix_of(all) {
        assert forall|i: int| 0 <= i < names.len() implies all[i] == names[i] by {
            assert(all.subrange(0, names.len() as int)[i] == all[i]);
        }
    }
}

/// A path starts at the root where it begins with a slash.
proof fn lemma_rooted(path: Seq<char>)
    ensures
        rooted(pieces(path)) <==> path.len() > 0 && path[0] == '/',
{
    let n = crate::text::span(path, '/') as int;
    crate::text::lemma_span(path, '/');
    if n < path.len() {
        lemma_split_fields(path.skip(n + 1), '/');
        assert(pieces(path)[0] =~= path.take(n));
    } else {
        assert(pieces(path) =~= seq![path]);
    }
}

/// Of a path beside another only the name differs.
pub proof fn names_beside_a_path(above: Seq<char>, name: Seq<char>, other: Seq<char>)
    requires
        ends_in_a_component(above),
        plain_name(name),
        plain_name(other),
    ensures
        beside(above + "/"@ + name, other) == above + "/"@ + other,
        beside(name, other) == other,
        beside("/"@ + name, other) == "/"@ + other,
{
    reveal_strlit("/");
    paths_are_a_parent_and_a_name(above, name);
    assert(other[0] != '/') by {
        assert(other.contains(other[0]));
    }
    assert(Seq::<char>::empty() + other =~= other);
}

/// The last name of a path is a plain one.
pub proof fn last_names_are_plain(path: Seq<char>)
    requires
        base_name(path) is Some,
    ensures
        plain_name(base_name(path)->0),
{
    let list = pieces(path);
    lemma_split_fields(path, '/');
    lemma_named_are_pieces(list, list.len() as int);
    let names = components(path);
    let i = choose|i: int| 0 <= i < list.len() && list[i] == names.last() && list[i].len() > 0;
    assert(!list[i].contains('/'));
}

/// What is named is a piece that is not empty.
proof fn lemma_named_are_pieces(list: Seq<Seq<char>>, n: int)
    requires
        0 <= n <= list.len(),
    ensures
        named(list, n).len() > 0 ==> exists|i: int|
            0 <= i < list.len() && list[i] == named(list, n).last() && (#[trigger] list[i]).len()
                > 0,
    decreases n,
{
    if n > 0 {
        if counts(list, n - 1) {
            assert(list[n - 1] == named(list, n).last());
        } else {
            lemma_named_are_pieces(list, n - 1);
        }
    }
}

} // verus!
