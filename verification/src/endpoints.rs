//! The addresses of the devices over TCP that the client has connected to.

use crate::control::{stable_transport_id, transport_id};
use crate::table::{
    distinct, has_key, lemma_empty, lemma_entry, lemma_insert, lemma_push, lemma_remove, map_of,
    place,
};
use crate::text::{
    append, chars_of, complains, copy_text, lemma_span_is, lines, lines_of, same_text, texts,
    without_return,
};
use vstd::prelude::*;

verus! {

/// A network address, by which addresses are ordered: first by family, then by
/// number, port, flow label and scope.
#[derive(Clone, Copy, Debug, PartialEq, Eq, Structural)]
pub struct EndpointKey {
    /// The family: 4 or 6.
    pub family: u8,
    /// The number.
    pub ip: u128,
    /// The port.
    pub port: u16,
    /// The flow label of an address of family 6.
    pub flow: u32,
    /// The scope of an address of family 6.
    pub scope: u32,
}

/// An address and its text.
#[derive(Debug)]
pub struct Endpoint {
    /// The address.
    pub key: EndpointKey,
    /// Its text.
    pub text: String,
}

/// Whether an address comes before another.
pub open spec fn precedes(left: EndpointKey, right: EndpointKey) -> bool {
    if left.family != right.family {
        left.family < right.family
    } else if left.ip != right.ip {
        left.ip < right.ip
    } else if left.port != right.port {
        left.port < right.port
    } else if left.flow != right.flow {
        left.flow < right.flow
    } else {
        left.scope < right.scope
    }
}

/// Whether an address comes before another.
fn comes_before(left: &EndpointKey, right: &EndpointKey) -> (before: bool)
    ensures
        before == precedes(*left, *right),
{
    if left.family != right.family {
        left.family < right.family
    } else if left.ip != right.ip {
        left.ip < right.ip
    } else if left.port != right.port {
        left.port < right.port
    } else if left.flow != right.flow {
        left.flow < right.flow
    } else {
        left.scope < right.scope
    }
}

impl Endpoint {
    /// The address and its text.
    pub open spec fn view(&self) -> (EndpointKey, Seq<char>) {
        (self.key, self.text@)
    }

    /// Copies an address.
    pub fn copy(&self) -> (endpoint: Endpoint)
        ensures
            endpoint@ == self@,
    {
        Endpoint { key: self.key, text: copy_text(&self.text) }
    }
}

/// Addresses and their texts.
pub open spec fn endpoint_entries(list: Seq<Endpoint>) -> Seq<(EndpointKey, Seq<char>)> {
    list.map_values(|endpoint: Endpoint| endpoint@)
}

/// Whether addresses are in order, each of them once.
pub open spec fn ordered(list: Seq<(EndpointKey, Seq<char>)>) -> bool {
    forall|i: int, j: int|
        0 <= i < j < list.len() ==> precedes((#[trigger] list[i]).0, (#[trigger] list[j]).0)
}

/// A set of addresses.
#[derive(Debug)]
pub struct EndpointSet {
    list: Vec<Endpoint>,
}

impl EndpointSet {
    /// The addresses and their texts, in order.
    pub closed spec fn listed(&self) -> Seq<(EndpointKey, Seq<char>)> {
        endpoint_entries(self.list@)
    }

    /// The text of each address.
    pub open spec fn view(&self) -> Map<EndpointKey, Seq<char>> {
        map_of(self.listed())
    }

    /// The addresses are in order, each of them once.
    pub open spec fn wf(&self) -> bool {
        ordered(self.listed())
    }

    /// The empty set.
    pub fn new() -> (set: EndpointSet)
        ensures
            set.wf(),
            set.listed() == Seq::<(EndpointKey, Seq<char>)>::empty(),
            set@ == Map::<EndpointKey, Seq<char>>::empty(),
    {
        let set = EndpointSet { list: Vec::new() };
        proof {
            lemma_empty::<EndpointKey, Seq<char>>();
            assert(set.listed() =~= Seq::<(EndpointKey, Seq<char>)>::empty());
        }
        set
    }

    /// Gathers the addresses that were read from the lines of a file; the first line
    /// that is no address is an error.
    pub fn gather(read: Vec<Result<Endpoint, String>>) -> (set: Result<EndpointSet, String>)
        ensures
            match read_lines(line_views(read@)) {
                Ok(list) => set is Ok && set->Ok_0.wf() && set->Ok_0@ == gathered(list),
                Err(error) => complains(set, error),
            },
    {
        let ghost all = line_views(read@);
        let mut set: EndpointSet = EndpointSet::new();
        let mut i: usize = 0;
        assert(all.len() == read@.len());
        assert(all.take(0) =~= seq![]);
        while i < read.len()
            invariant
                i <= read@.len(),
                all == line_views(read@),
                all.len() == read@.len(),
                set.wf(),
                read_lines(all.take(i as int)) is Ok,
                set@ == gathered(read_lines(all.take(i as int))->Ok_0),
            decreases read@.len() - i,
        {
            let ghost list = read_lines(all.take(i as int))->Ok_0;
            let ghost taken = all.take(i + 1);
            proof {
                assert(taken.drop_last() =~= all.take(i as int));
                assert(taken.last() == all[i as int]);
            }
            match &read[i] {
                Ok(endpoint) => {
                    let ghost added = endpoint@;
                    set.insert(endpoint.copy());
                    assert(list.push(added).drop_last() =~= list);
                },
                Err(error) => {
                    let error: String = copy_text(error);
                    proof {
                        lemma_first_failure(all, i + 1);
                        assert(all.take(all.len() as int) =~= all);
                    }
                    return Err(error);
                },
            }
            i = i + 1;
        }
        assert(all.take(i as int) =~= all);
        Ok(set)
    }

    /// Finds the first address that does not come before another.
    fn find(&self, key: &EndpointKey) -> (at: usize)
        requires
            self.wf(),
        ensures
            at <= self.list@.len(),
            forall|i: int| 0 <= i < at ==> precedes((#[trigger] self.listed()[i]).0, *key),
            at < self.list@.len() ==> !precedes(self.listed()[at as int].0, *key),
            distinct(self.listed()),
            self@.contains_key(*key) <==> (at < self.list@.len() && self.listed()[at as int].0
                == *key),
    {
        let mut at: usize = 0;
        while at < self.list.len() && comes_before(&self.list[at].key, key)
            invariant
                at <= self.list@.len(),
                forall|i: int| 0 <= i < at ==> precedes((#[trigger] self.listed()[i]).0, *key),
            decreases self.list@.len() - at,
        {
            assert(self.listed()[at as int] == self.list@[at as int]@);
            at = at + 1;
        }
        proof {
            let list = self.listed();
            lemma_distinct(list);
            if at < list.len() {
                assert(list[at as int] == self.list@[at as int]@);
                if list[at as int].0 == *key {
                    lemma_entry(list, at as int);
                }
            }
            if self@.contains_key(*key) {
                let p = place(list, *key);
                assert(has_key(list, *key));
                assert(list[p].0 == *key);
                if p < at {
                    assert(precedes(list[p].0, *key));
                } else if p > at {
                    assert(precedes(list[at as int].0, list[p].0));
                }
            }
        }
        at
    }

    /// Whether an address is in the set.
    pub fn contains(&self, key: &EndpointKey) -> (found: bool)
        requires
            self.wf(),
        ensures
            found == self@.contains_key(*key),
    {
        let at: usize = self.find(key);
        proof {
            if at < self.list@.len() {
                assert(self.listed()[at as int] == self.list@[at as int]@);
            }
        }
        at < self.list.len() && self.list[at].key == *key
    }

    /// Adds an address; one that is there stays as it is.
    pub fn insert(&mut self, endpoint: Endpoint)
        requires
            old(self).wf(),
        ensures
            final(self).wf(),
            final(self)@ == if old(self)@.contains_key(endpoint.key) {
                old(self)@
            } else {
                old(self)@.insert(endpoint.key, endpoint.text@)
            },
    {
        let key: EndpointKey = endpoint.key;
        let at: usize = self.find(&key);
        let ghost before = self.listed();
        let ghost added = endpoint@;
        proof {
            if at < self.list@.len() {
                assert(before[at as int] == self.list@[at as int]@);
            }
        }
        if at < self.list.len() && self.list[at].key == key {
            return;
        }
        proof {
            assert forall|i: int| 0 <= i < before.len() implies (#[trigger] before[i]).0 != key by {
                if before[i].0 == key {
                    lemma_entry(before, i);
                }
            }
            lemma_insert(before, at as int, key, endpoint.text@);
        }
        self.list.insert(at, endpoint);
        proof {
            let after = self.listed();
            assert(after =~= before.insert(at as int, added));
            assert forall|i: int, j: int| 0 <= i < j < after.len() implies precedes(
                (#[trigger] after[i]).0,
                (#[trigger] after[j]).0,
            ) by {
                let k = if i < at {
                    i
                } else {
                    i - 1
                };
                let l = if j < at {
                    j
                } else {
                    j - 1
                };
                if i != at && j != at {
                    assert(after[i] == before[k]);
                    assert(after[j] == before[l]);
                } else if i == at {
                    assert(after[j] == before[j - 1]);
                    if j - 1 > at {
                        assert(precedes(before[at as int].0, before[j - 1].0));
                    }
                } else {
                    assert(after[i] == before[i]);
                }
            }
        }
    }

    /// Removes an address.
    pub fn remove(&mut self, key: &EndpointKey)
        requires
            old(self).wf(),
        ensures
            final(self).wf(),
            final(self)@ == old(self)@.remove(*key),
    {
        let at: usize = self.find(key);
        let ghost before = self.listed();
        proof {
            if at < self.list@.len() {
                assert(before[at as int] == self.list@[at as int]@);
            }
        }
        if at < self.list.len() && self.list[at].key == *key {
            proof {
                lemma_remove(before, at as int);
            }
            let _ = self.list.remove(at);
            proof {
                let after = self.listed();
                assert(after =~= before.remove(at as int));
                assert forall|i: int, j: int| 0 <= i < j < after.len() implies precedes(
                    (#[trigger] after[i]).0,
                    (#[trigger] after[j]).0,
                ) by {
                    let k = if i < at {
                        i
                    } else {
                        i + 1
                    };
                    let l = if j < at {
                        j
                    } else {
                        j + 1
                    };
                    assert(after[i] == before[k]);
                    assert(after[j] == before[l]);
                }
            }
        } else {
            assert(self@.remove(*key) =~= self@);
        }
    }

    /// Removes every address.
    pub fn clear(&mut self)
        ensures
            final(self).wf(),
            final(self)@ == Map::<EndpointKey, Seq<char>>::empty(),
    {
        self.list = Vec::new();
        proof {
            lemma_empty::<EndpointKey, Seq<char>>();
            assert(self.listed() =~= Seq::<(EndpointKey, Seq<char>)>::empty());
        }
    }

    /// Lists the addresses in order.
    pub fn endpoints(&self) -> (list: Vec<Endpoint>)
        ensures
            endpoint_entries(list@) == self.listed(),
    {
        let mut list: Vec<Endpoint> = Vec::new();
        let mut i: usize = 0;
        while i < self.list.len()
            invariant
                i <= self.list@.len(),
                endpoint_entries(list@) =~= self.listed().take(i as int),
            decreases self.list@.len() - i,
        {
            let ghost before = endpoint_entries(list@);
            list.push(self.list[i].copy());
            assert(self.listed()[i as int] == self.list@[i as int]@);
            assert(endpoint_entries(list@) =~= before.push(self.listed()[i as int]));
            i = i + 1;
        }
        assert(self.listed().take(self.list@.len() as int) =~= self.listed());
        list
    }

    /// Finds the first address whose transport has a number.
    pub fn find_transport(&self, id: u64) -> (found: Option<Endpoint>)
        ensures
            match found {
                Some(endpoint) => first_transport(self.listed(), id) == Some(endpoint@),
                None => first_transport(self.listed(), id) is None,
            },
    {
        let mut i: usize = 0;
        assert(self.listed().skip(0) =~= self.listed());
        while i < self.list.len()
            invariant
                i <= self.list@.len(),
                first_transport(self.listed(), id) == first_transport(
                    self.listed().skip(i as int),
                    id,
                ),
            decreases self.list@.len() - i,
        {
            let ghost rest = self.listed().skip(i as int);
            assert(rest[0] == self.list@[i as int]@);
            assert(rest.drop_first() =~= self.listed().skip(i + 1));
            if stable_transport_id("tcp", &self.list[i].text) == id {
                return Some(self.list[i].copy());
            }
            i = i + 1;
        }
        None
    }

    /// Writes the file that keeps the addresses: each on a line.
    pub fn file(&self) -> (text: String)
        ensures
            text@ == endpoint_file(self.listed()),
    {
        let mut text = String::new();
        let mut i: usize = 0;
        assert(self.listed().skip(0) =~= self.listed());
        assert(text@ + endpoint_file(self.listed()) =~= endpoint_file(self.listed()));
        while i < self.list.len()
            invariant
                i <= self.list@.len(),
                text@ + endpoint_file(self.listed().skip(i as int)) == endpoint_file(
                    self.listed(),
                ),
            decreases self.list@.len() - i,
        {
            let ghost before = text@;
            let ghost rest = self.listed().skip(i as int);
            append(&mut text, &self.list[i].text);
            text.push('\n');
            proof {
                assert(rest[0] == self.list@[i as int]@);
                assert(rest.drop_first() =~= self.listed().skip(i + 1));
                assert(text@ =~= before + rest[0].1 + seq!['\n']);
                assert(text@ + endpoint_file(rest.drop_first()) =~= before + endpoint_file(rest));
            }
            i = i + 1;
        }
        assert(text@ + endpoint_file(self.listed().skip(i as int)) =~= text@);
        text
    }

    /// Lists the texts of the addresses that are not among some identifiers, in
    /// order.
    pub fn unlisted(&self, identifiers: &[String]) -> (list: Vec<String>)
        ensures
            texts(list@) == texts_beyond(self.listed(), texts(identifiers@)),
    {
        let mut list: Vec<String> = Vec::new();
        let mut i: usize = 0;
        assert(self.listed().take(0) =~= seq![]);
        assert(texts(list@) =~= seq![]);
        while i < self.list.len()
            invariant
                i <= self.list@.len(),
                texts(list@) == texts_beyond(
                    self.listed().take(i as int),
                    texts(identifiers@),
                ),
            decreases self.list@.len() - i,
        {
            let ghost taken = self.listed().take(i + 1);
            let ghost before = texts(list@);
            proof {
                assert(taken.drop_last() =~= self.listed().take(i as int));
                assert(taken.last() == self.list@[i as int]@);
            }
            if !holds_text(identifiers, &self.list[i].text) {
                list.push(copy_text(&self.list[i].text));
                assert(texts(list@) =~= before.push(taken.last().1));
            }
            i = i + 1;
        }
        assert(self.listed().take(self.list@.len() as int) =~= self.listed());
        list
    }
}

/// Whether a text is in a list.
fn holds_text(list: &[String], text: &str) -> (found: bool)
    ensures
        found == texts(list@).contains(text@),
{
    let mut i: usize = 0;
    while i < list.len()
        invariant
            i <= list@.len(),
            forall|j: int| 0 <= j < i ==> texts(list@)[j] != text@,
        decreases list@.len() - i,
    {
        assert(texts(list@)[i as int] == list@[i as int]@);
        if same_text(&list[i], text) {
            return true;
        }
        i = i + 1;
    }
    false
}

/// Lists the texts of the addresses that a file keeps: its lines.
pub fn saved_addresses(content: &str) -> (list: Vec<String>)
    ensures
        texts(list@) == lines(content@),
{
    let chars: Vec<char> = chars_of(content);
    lines_of(chars.as_slice())
}

/// What was read from lines.
pub open spec fn line_views(list: Seq<Result<Endpoint, String>>) -> Seq<
    Result<(EndpointKey, Seq<char>), Seq<char>>,
> {
    list.map_values(
        |line: Result<Endpoint, String>|
            match line {
                Ok(endpoint) => Ok(endpoint@),
                Err(error) => Err(error@),
            },
    )
}

/// The addresses on lines, or why the first line that is none is not.
pub open spec fn read_lines(list: Seq<Result<(EndpointKey, Seq<char>), Seq<char>>>) -> Result<
    Seq<(EndpointKey, Seq<char>)>,
    Seq<char>,
>
    decreases list.len(),
{
    if list.len() == 0 {
        Ok(seq![])
    } else {
        match (read_lines(list.drop_last()), list.last()) {
            (Err(error), _) => Err(error),
            (_, Err(error)) => Err(error),
            (Ok(before), Ok(entry)) => Ok(before.push(entry)),
        }
    }
}

/// An error among the first lines stays.
proof fn lemma_first_failure(list: Seq<Result<(EndpointKey, Seq<char>), Seq<char>>>, n: int)
    requires
        0 <= n <= list.len(),
        read_lines(list.take(n)) is Err,
    ensures
        read_lines(list.take(list.len() as int)) == read_lines(list.take(n)),
    decreases list.len() - n,
{
    if n < list.len() {
        let next = list.take(n + 1);
        assert(next.drop_last() =~= list.take(n));
        lemma_first_failure(list, n + 1);
    }
}

/// Addresses with their texts, each as it came first.
pub open spec fn gathered(list: Seq<(EndpointKey, Seq<char>)>) -> Map<EndpointKey, Seq<char>>
    decreases list.len(),
{
    if list.len() == 0 {
        Map::empty()
    } else {
        let before = gathered(list.drop_last());
        if before.contains_key(list.last().0) {
            before
        } else {
            before.insert(list.last().0, list.last().1)
        }
    }
}

/// A set that was listed and is gathered again is what it was.
pub proof fn listed_sets_are_gathered_again(list: Seq<(EndpointKey, Seq<char>)>)
    requires
        ordered(list),
    ensures
        gathered(list) == map_of(list),
    decreases list.len(),
{
    if list.len() == 0 {
        lemma_empty::<EndpointKey, Seq<char>>();
        assert(list =~= Seq::<(EndpointKey, Seq<char>)>::empty());
    } else {
        let front = list.drop_last();
        let last = list.last();
        assert forall|i: int, j: int| 0 <= i < j < front.len() implies precedes(
            (#[trigger] front[i]).0,
            (#[trigger] front[j]).0,
        ) by {
            assert(precedes(list[i].0, list[j].0));
        }
        listed_sets_are_gathered_again(front);
        lemma_distinct(front);
        assert forall|i: int| 0 <= i < front.len() implies (#[trigger] front[i]).0 != last.0 by {
            assert(precedes(list[i].0, list[list.len() - 1].0));
        }
        lemma_push(front, last.0, last.1);
        assert(front.push((last.0, last.1)) =~= list);
        assert(!map_of(front).contains_key(last.0));
    }
}

/// The first address whose transport has a number.
pub open spec fn first_transport(list: Seq<(EndpointKey, Seq<char>)>, id: u64) -> Option<
    (EndpointKey, Seq<char>),
>
    decreases list.len(),
{
    if list.len() == 0 {
        None
    } else if transport_id("tcp"@, list[0].1) == id {
        Some(list[0])
    } else {
        first_transport(list.drop_first(), id)
    }
}

/// The texts of the addresses that are not among some identifiers.
pub open spec fn texts_beyond(
    list: Seq<(EndpointKey, Seq<char>)>,
    identifiers: Seq<Seq<char>>,
) -> Seq<Seq<char>>
    decreases list.len(),
{
    if list.len() == 0 {
        seq![]
    } else {
        let before = texts_beyond(list.drop_last(), identifiers);
        if identifiers.contains(list.last().1) {
            before
        } else {
            before.push(list.last().1)
        }
    }
}

/// The file that keeps addresses: each on a line.
pub open spec fn endpoint_file(list: Seq<(EndpointKey, Seq<char>)>) -> Seq<char>
    decreases list.len(),
{
    if list.len() == 0 {
        seq![]
    } else {
        list[0].1 + seq!['\n'] + endpoint_file(list.drop_first())
    }
}

/// Addresses in order differ.
proof fn lemma_distinct(list: Seq<(EndpointKey, Seq<char>)>)
    requires
        ordered(list),
    ensures
        distinct(list),
{
    assert forall|i: int, j: int| 0 <= i < j < list.len() implies (#[trigger] list[i]).0 != (
    #[trigger] list[j]).0 by {
        assert(precedes(list[i].0, list[j].0));
    }
}

/// The lines of the file that keeps addresses are the texts of the addresses.
pub proof fn saved_endpoints_are_read_back(list: Seq<(EndpointKey, Seq<char>)>)
    requires
        forall|i: int|
            0 <= i < list.len() ==> !(#[trigger] list[i]).1.contains('\n')
                && !list[i].1.contains('\r'),
    ensures
        lines(endpoint_file(list)) == list.map_values(
            |entry: (EndpointKey, Seq<char>)| entry.1,
        ),
    decreases list.len(),
{
    let told = list.map_values(|entry: (EndpointKey, Seq<char>)| entry.1);
    if list.len() == 0 {
        assert(lines(endpoint_file(list)) =~= told);
    } else {
        let rest = list.drop_first();
        assert forall|i: int| 0 <= i < rest.len() implies !(#[trigger] rest[i]).1.contains('\n')
            && !rest[i].1.contains('\r') by {
            assert(rest[i] == list[i + 1]);
        }
        saved_endpoints_are_read_back(rest);
        let first = list[0].1;
        let file = endpoint_file(list);
        let n = first.len() as int;
        assert forall|i: int| 0 <= i < n implies file[i] != '\n' by {
            assert(file[i] == first[i]);
            assert(first.contains(first[i]));
        }
        assert(file[n] == '\n');
        lemma_span_is(file, '\n', n);
        assert(file.take(n) =~= first);
        assert(file.skip(n + 1) =~= endpoint_file(rest));
        assert(without_return(first) == first) by {
            if first.len() > 0 {
                assert(first.contains(first[first.len() - 1]));
            }
        }
        assert(lines(file) == seq![first] + lines(endpoint_file(rest)));
        assert(lines(file) =~= told);
    }
}

/// The transport of a saved address is found by its number, unless one before it
/// has the same.
pub proof fn transports_are_found(list: Seq<(EndpointKey, Seq<char>)>, i: int)
    requires
        0 <= i < list.len(),
        forall|j: int|
            0 <= j < i ==> transport_id("tcp"@, (#[trigger] list[j]).1) != transport_id(
                "tcp"@,
                list[i].1,
            ),
    ensures
        first_transport(list, transport_id("tcp"@, list[i].1)) == Some(list[i]),
    decreases list.len(),
{
    if i > 0 {
        let rest = list.drop_first();
        assert(rest[i - 1] == list[i]);
        assert forall|j: int| 0 <= j < i - 1 implies transport_id(
            "tcp"@,
            (#[trigger] rest[j]).1,
        ) != transport_id("tcp"@, rest[i - 1].1) by {
            assert(rest[j] == list[j + 1]);
        }
        transports_are_found(rest, i - 1);
        assert(transport_id("tcp"@, list[0].1) != transport_id("tcp"@, list[i].1));
    }
}

/// Addresses are ordered by family, then by number, then by port, then by flow and
/// scope, and any two that differ are ordered one way.
pub proof fn addresses_are_ordered(left: EndpointKey, right: EndpointKey, last: EndpointKey)
    ensures
        left.family < right.family ==> precedes(left, right),
        left.family == right.family && left.ip < right.ip ==> precedes(left, right),
        left.family == right.family && left.ip == right.ip && left.port < right.port ==> precedes(
            left,
            right,
        ),
        left.family == right.family && left.ip == right.ip && left.port == right.port && left.flow
            < right.flow ==> precedes(left, right),
        left.family == right.family && left.ip == right.ip && left.port == right.port && left.flow
            == right.flow && left.scope < right.scope ==> precedes(left, right),
        left != right ==> (precedes(left, right) <==> !precedes(right, left)),
        !precedes(left, left),
        precedes(left, right) && precedes(right, last) ==> precedes(left, last),
{
}

/// The addresses of a file are all taken where each can be read, and otherwise the
/// first that cannot is what is wrong with it.
pub proof fn lines_are_read_until_one_fails(
    list: Seq<Result<(EndpointKey, Seq<char>), Seq<char>>>,
    i: int,
)
    requires
        0 <= i <= list.len(),
        forall|j: int| 0 <= j < i ==> #[trigger] list[j] is Ok,
    ensures
        i == list.len() ==> read_lines(list) is Ok && read_lines(list)->Ok_0.len() == i && forall|
            j: int,
        |
            0 <= j < i ==> #[trigger] read_lines(list)->Ok_0[j] == list[j]->Ok_0,
        i < list.len() && list[i] is Err ==> read_lines(list) == Err::<
            Seq<(EndpointKey, Seq<char>)>,
            Seq<char>,
        >(list[i]->Err_0),
    decreases list.len(),
{
    if list.len() > 0 {
        let before = list.drop_last();
        assert(forall|j: int| 0 <= j < before.len() ==> before[j] == list[j]);
        if i == list.len() {
            lines_are_read_until_one_fails(before, i - 1);
            assert(list[i - 1] is Ok);
            assert forall|j: int| 0 <= j < i implies #[trigger] read_lines(list)->Ok_0[j]
                == list[j]->Ok_0 by {
                if j < i - 1 {
                    assert(read_lines(before)->Ok_0[j] == before[j]->Ok_0);
                }
            }
        } else {
            lines_are_read_until_one_fails(before, i);
        }
    }
}

/// The first of two addresses with one number is kept.
pub proof fn addresses_are_kept_once(list: Seq<(EndpointKey, Seq<char>)>, i: int)
    requires
        0 <= i < list.len(),
        forall|j: int| 0 <= j < i ==> (#[trigger] list[j]).0 != list[i].0,
    ensures
        gathered(list).contains_key(list[i].0),
        gathered(list)[list[i].0] == list[i].1,
    decreases list.len(),
{
    let before = list.drop_last();
    assert(forall|j: int| 0 <= j < before.len() ==> before[j] == list[j]);
    if i < list.len() - 1 {
        addresses_are_kept_once(before, i);
    } else if gathered(before).contains_key(list[i].0) {
        lemma_gathered(before, list[i].0);
    }
}

/// Every address that is gathered stands in the list.
proof fn lemma_gathered(list: Seq<(EndpointKey, Seq<char>)>, key: EndpointKey)
    requires
        gathered(list).contains_key(key),
    ensures
        exists|i: int| 0 <= i < list.len() && (#[trigger] list[i]).0 == key,
    decreases list.len(),
{
    let before = list.drop_last();
    assert(list.last() == list[list.len() - 1]);
    if gathered(before).contains_key(key) {
        lemma_gathered(before, key);
        let i = choose|i: int| 0 <= i < before.len() && (#[trigger] before[i]).0 == key;
        assert(list[i].0 == key);
    }
}

/// The file of a set holds the text of each address on a line of its own, in order.
pub proof fn files_hold_an_address_on_each_line(
    list: Seq<(EndpointKey, Seq<char>)>,
    key: EndpointKey,
    text: Seq<char>,
)
    ensures
        endpoint_file(seq![(key, text)] + list) == text + "\n"@ + endpoint_file(list),
        endpoint_file(seq![]) == ""@,
{
    reveal_strlit("\n");
    reveal_strlit("");
    assert("\n"@ =~= seq!['\n']);
    assert(""@ =~= Seq::<char>::empty());
    assert((seq![(key, text)] + list).drop_first() =~= list);
}

/// The addresses beyond a list are those of the set that the list does not hold.
pub proof fn addresses_beyond_a_list(
    list: Seq<(EndpointKey, Seq<char>)>,
    identifiers: Seq<Seq<char>>,
    text: Seq<char>,
)
    ensures
        texts_beyond(list, identifiers).contains(text) <==> !identifiers.contains(text) && exists|
            i: int,
        |
            0 <= i < list.len() && (#[trigger] list[i]).1 == text,
    decreases list.len(),
{
    if list.len() > 0 {
        let before = list.drop_last();
        let rest = texts_beyond(before, identifiers);
        addresses_beyond_a_list(before, identifiers, text);
        let all = texts_beyond(list, identifiers);
        if identifiers.contains(list.last().1) {
            assert(all == rest);
        } else {
            assert(all == rest.push(list.last().1));
            assert(all[rest.len() as int] == list.last().1);
            if rest.contains(text) {
                let k = choose|k: int| 0 <= k < rest.len() && rest[k] == text;
                assert(all[k] == text);
            }
            if all.contains(text) {
                let k = choose|k: int| 0 <= k < all.len() && all[k] == text;
                if k < rest.len() {
                    assert(rest[k] == text);
                }
            }
        }
        if exists|i: int| 0 <= i < list.len() && (#[trigger] list[i]).1 == text {
            let i = choose|i: int| 0 <= i < list.len() && (#[trigger] list[i]).1 == text;
            if i < before.len() {
                assert(before[i].1 == text);
            }
        }
        if exists|i: int| 0 <= i < before.len() && (#[trigger] before[i]).1 == text {
            let i = choose|i: int| 0 <= i < before.len() && (#[trigger] before[i]).1 == text;
            assert(list[i].1 == text);
        }
        assert(list[list.len() - 1] == list.last());
    }
}

} // verus!
