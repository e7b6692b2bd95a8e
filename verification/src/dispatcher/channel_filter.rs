//! Filters channel data before it is forwarded to another dispatcher.

use vstd::prelude::*;
use crate::binary64::Real;
use crate::text;
use crate::text::{push_nat, push_text, same_text};

verus! {

/// The index of the last channel with a name, or -1.
pub open spec fn last_index(names: Seq<Seq<char>>, name: Seq<char>) -> int
    decreases names.len(),
{
    if names.len() == 0 {
        -1
    } else if names.last() == name {
        names.len() - 1
    } else {
        last_index(names.drop_last(), name)
    }
}

/// Whether the name at an index stands before it, too.
pub open spec fn repeats(names: Seq<Seq<char>>, i: int) -> bool {
    names.take(i).contains(names[i])
}

/// Why a list of wanted channels cannot be served: the first that repeats an
/// earlier one, else the first that is missing.
pub open spec fn first_repeat(wanted: Seq<Seq<char>>, i: int) -> Option<int>
    decreases wanted.len() - i,
{
    if i < 0 || i >= wanted.len() {
        None
    } else if repeats(wanted, i) {
        Some(i)
    } else {
        first_repeat(wanted, i + 1)
    }
}

/// The first wanted channel that is missing, from index `i` on.
pub open spec fn first_missing(wanted: Seq<Seq<char>>, there: Seq<Seq<char>>, i: int) -> Option<int>
    decreases wanted.len() - i,
{
    if i < 0 || i >= wanted.len() {
        None
    } else if last_index(there, wanted[i]) < 0 {
        Some(i)
    } else {
        first_missing(wanted, there, i + 1)
    }
}

/// Why a list of wanted channels cannot be served.
pub open spec fn filter_fault(wanted: Seq<Seq<char>>, there: Seq<Seq<char>>) -> Option<Seq<char>> {
    match first_repeat(wanted, 0) {
        Some(i) => Some("Channel filter contains duplicate name '"@ + wanted[i] + "'"@),
        None => match first_missing(wanted, there, 0) {
            Some(i) => Some("Channel filter requested missing channel '"@ + wanted[i] + "'"@),
            None => None,
        },
    }
}

/// Whether some indices are those of the wanted channels.
pub open spec fn finds(indices: Seq<usize>, wanted: Seq<Seq<char>>, there: Seq<Seq<char>>) -> bool {
    indices.len() == wanted.len() && forall|i: int|
        0 <= i < indices.len() ==> #[trigger] indices[i] == last_index(there, wanted[i])
}

/// Forwards a subset of channels by name.
#[derive(Debug)]
pub struct ChannelFilter {
    pub channels: Vec<String>,
    pub indices: Vec<usize>,
    pub initialized: bool,
}

fn find_last(names: &[String], name: &str) -> (r: Option<usize>)
    ensures
        match r {
            Some(i) => i < names@.len() && i == last_index(text::texts(names@), name@),
            None => last_index(text::texts(names@), name@) < 0,
        },
{
    let ghost all = text::texts(names@);
    let mut i: usize = names.len();
    assert(all.take(i as int) =~= all);
    while i > 0
        invariant
            i <= names@.len(),
            all == text::texts(names@),
            last_index(all, name@) == last_index(all.take(i as int), name@),
        decreases i,
    {
        assert(all.take(i as int).drop_last() =~= all.take(i - 1));
        assert(all.take(i as int).last() == names@[i - 1]@);
        if same_text(names[i - 1].as_str(), name) {
            return Some(i - 1);
        }
        i = i - 1;
    }
    None
}

fn occurs_before(names: &[String], n: usize) -> (r: bool)
    requires
        n < names.len(),
    ensures
        r == repeats(text::texts(names@), n as int),
{
    let ghost all = text::texts(names@);
    let mut i: usize = 0;
    while i < n
        invariant
            i <= n < names@.len(),
            all == text::texts(names@),
            forall|k: int| 0 <= k < i ==> #[trigger] all.take(n as int)[k] != all[n as int],
        decreases n - i,
    {
        if same_text(names[i].as_str(), names[n].as_str()) {
            assert(all.take(n as int)[i as int] == all[n as int]);
            return true;
        }
        i = i + 1;
    }
    false
}

impl ChannelFilter {
    /// A filter for the channels with these names.
    pub fn new(channels: Vec<String>) -> (r: Self)
        ensures
            r.channels == channels,
            r.indices@.len() == 0,
            !r.initialized,
    {
        ChannelFilter { channels, indices: Vec::new(), initialized: false }
    }

    fn build_indices(&self, channel_names: &[String]) -> (r: Result<Vec<usize>, String>)
        ensures
            match r {
                Ok(v) => {
                    &&& filter_fault(
                        text::texts(self.channels@),
                        text::texts(channel_names@),
                    ) is None
                    &&& finds(v@, text::texts(self.channels@), text::texts(channel_names@))
                    &&& forall|i: int|
                        0 <= i < v@.len() ==> #[trigger] v@[i] < channel_names@.len()
                },
                Err(e) => filter_fault(text::texts(self.channels@), text::texts(channel_names@))
                    == Some(e@),
            },
    {
        let ghost wanted = text::texts(self.channels@);
        let ghost there = text::texts(channel_names@);
        let mut i: usize = 0;
        while i < self.channels.len()
            invariant
                i <= self.channels@.len(),
                wanted == text::texts(self.channels@),
                first_repeat(wanted, 0) == first_repeat(wanted, i as int),
                there == text::texts(channel_names@),
            decreases self.channels@.len() - i,
        {
            if occurs_before(self.channels.as_slice(), i) {
                assert(wanted[i as int] == self.channels@[i as int]@);
                let mut e = "Channel filter contains duplicate name '".to_owned();
                e.push_str(self.channels[i].as_str());
                e.push_str("'");
                return Err(e);
            }
            i = i + 1;
        }
        let mut v: Vec<usize> = Vec::new();
        i = 0;
        while i < self.channels.len()
            invariant
                i <= self.channels@.len(),
                wanted == text::texts(self.channels@),
                there == text::texts(channel_names@),
                first_repeat(wanted, 0) is None,
                first_missing(wanted, there, 0) == first_missing(wanted, there, i as int),
                finds(v@, wanted.take(i as int), there),
                forall|k: int| 0 <= k < v@.len() ==> #[trigger] v@[k] < channel_names@.len(),
            decreases self.channels@.len() - i,
        {
            assert(wanted[i as int] == self.channels@[i as int]@);
            match find_last(channel_names, self.channels[i].as_str()) {
                Some(found) => {
                    let ghost before = v@;
                    v.push(found);
                    assert forall|k: int| 0 <= k < v@.len() implies #[trigger] v@[k] == last_index(
                        there,
                        wanted.take(i + 1)[k],
                    ) by {
                        if k < i {
                            assert(v@[k] == before[k]);
                            assert(wanted.take(i + 1)[k] == wanted.take(i as int)[k]);
                        }
                    }
                },
                None => {
                    let mut e = "Channel filter requested missing channel '".to_owned();
                    e.push_str(self.channels[i].as_str());
                    e.push_str("'");
                    return Err(e);
                },
            }
            i = i + 1;
        }
        assert(wanted.take(wanted.len() as int) =~= wanted);
        Ok(v)
    }

    /// Finds the wanted channels, and gives their names for the dispatcher behind
    /// the filter.
    pub fn init(&mut self, channel_names: &[String]) -> (r: Result<Vec<String>, String>)
        ensures
            final(self).channels == old(self).channels,
            match r {
                Ok(names) => {
                    &&& filter_fault(
                        text::texts(old(self).channels@),
                        text::texts(channel_names@),
                    ) is None
                    &&& final(self).initialized
                    &&& finds(
                        final(self).indices@,
                        text::texts(old(self).channels@),
                        text::texts(channel_names@),
                    )
                    &&& text::texts(names@) == text::texts(old(self).channels@)
                },
                Err(e) => {
                    &&& filter_fault(text::texts(old(self).channels@), text::texts(channel_names@))
                        == Some(e@)
                    &&& *final(self) == *old(self)
                },
            },
    {
        let indices = self.build_indices(channel_names)?;
        let ghost wanted = text::texts(self.channels@);
        let ghost there = text::texts(channel_names@);
        let mut names: Vec<String> = Vec::new();
        let mut i: usize = 0;
        assert(text::texts(names@) =~= wanted.take(0));
        while i < indices.len()
            invariant
                i <= indices@.len(),
                wanted == text::texts(self.channels@),
                there == text::texts(channel_names@),
                finds(indices@, wanted, there),
                forall|k: int|
                    0 <= k < indices@.len() ==> #[trigger] indices@[k] < channel_names@.len(),
                text::texts(names@) == wanted.take(i as int),
            decreases indices@.len() - i,
        {
            let ghost n = indices@[i as int] as int;
            proof {
                assert(n == last_index(there, wanted[i as int]));
                lemma_last_index(there, wanted[i as int]);
                assert(there[n] == channel_names@[n]@);
            }
            assert(n < channel_names@.len());
            push_text(&mut names, channel_names[indices[i]].as_str());
            assert(text::texts(names@) =~= wanted.take(i + 1));
            i = i + 1;
        }
        assert(wanted.take(wanted.len() as int) =~= wanted);
        self.indices = indices;
        self.initialized = true;
        Ok(names)
    }

    /// Selects the values of the wanted channels.
    pub fn consume(&self, channel_values: &[Real]) -> (r: Result<Vec<Real>, String>)
        ensures
            match r {
                Ok(v) => {
                    &&& self.initialized
                    &&& v@.len() == self.indices@.len()
                    &&& forall|i: int|
                        0 <= i < v@.len() ==> self.indices@[i] < channel_values@.len()
                            && #[trigger] v@[i] == channel_values@[self.indices@[i] as int]
                },
                Err(e) => {
                    ||| !self.initialized && e@
                        == "ChannelFilter must be initialized before consuming data"@
                    ||| self.initialized && exists|i: int|
                        {
                            &&& 0 <= i < self.indices@.len()
                            &&& #[trigger] self.indices@[i] >= channel_values@.len()
                            &&& forall|k: int|
                                0 <= k < i ==> #[trigger] self.indices@[k] < channel_values@.len()
                            &&& e@ == out_of_bounds(self.indices@[i] as nat, channel_values@.len())
                        }
                },
            },
    {
        if !self.initialized {
            return Err("ChannelFilter must be initialized before consuming data".to_owned());
        }
        let mut v: Vec<Real> = Vec::new();
        let mut i: usize = 0;
        while i < self.indices.len()
            invariant
                i <= self.indices@.len(),
                self.initialized,
                v@.len() == i,
                forall|k: int|
                    0 <= k < i ==> #[trigger] self.indices@[k] < channel_values@.len() && v@[k]
                        == channel_values@[self.indices@[k] as int],
            decreases self.indices@.len() - i,
        {
            let index = self.indices[i];
            if index >= channel_values.len() {
                let mut e = "Channel filter index ".to_owned();
                push_nat(&mut e, index as u128);
                e.push_str(" out of bounds for ");
                push_nat(&mut e, channel_values.len() as u128);
                e.push_str(" values");
                assert(self.indices@[i as int] >= channel_values@.len());
                return Err(e);
            }
            v.push(channel_values[index]);
            i = i + 1;
        }
        Ok(v)
    }

    /// Forgets the channels that were found.
    pub fn terminate(&mut self)
        ensures
            final(self).channels == old(self).channels,
            final(self).indices@.len() == 0,
            !final(self).initialized,
    {
        self.indices = Vec::new();
        self.initialized = false;
    }
}

/// The error of an index that no value has.
pub open spec fn out_of_bounds(index: nat, count: nat) -> Seq<char> {
    "Channel filter index "@ + text::nat_text(index) + " out of bounds for "@ + text::nat_text(
        count,
    ) + " values"@
}

proof fn lemma_last_index(names: Seq<Seq<char>>, name: Seq<char>)
    ensures
        -1 <= last_index(names, name) < names.len(),
        last_index(names, name) >= 0 ==> names[last_index(names, name)] == name,
    decreases names.len(),
{
    if names.len() > 0 && names.last() != name {
        lemma_last_index(names.drop_last(), name);
    }
}

/// A list of wanted channels can be served if and only if it holds no name twice
/// and all of them are there.
pub proof fn law_filter_accepts_distinct_channels(
    wanted: Seq<Seq<char>>,
    there: Seq<Seq<char>>,
)
    ensures
        filter_fault(wanted, there) is None <==> wanted.no_duplicates() && (forall|i: int|
            0 <= i < wanted.len() ==> there.contains(#[trigger] wanted[i])),
{
    lemma_no_repeat(wanted, 0);
    lemma_no_missing(wanted, there, 0);
    if first_repeat(wanted, 0) is None {
        assert forall|i: int, j: int| 0 <= i < j < wanted.len() implies wanted[i] != wanted[j] by {
            assert(!repeats(wanted, j));
            assert(wanted.take(j)[i] == wanted[i]);
        }
    }
    if wanted.no_duplicates() {
        assert forall|j: int| 0 <= j < wanted.len() implies !#[trigger] repeats(wanted, j) by {
            if repeats(wanted, j) {
                let i = choose|i: int| 0 <= i < j && wanted.take(j)[i] == wanted[j];
                assert(wanted[i] == wanted[j]);
            }
        }
    }
}

proof fn lemma_no_repeat(wanted: Seq<Seq<char>>, i: int)
    requires
        0 <= i,
    ensures
        first_repeat(wanted, i) is None <==> forall|j: int|
            i <= j < wanted.len() ==> !#[trigger] repeats(wanted, j),
    decreases wanted.len() - i,
{
    if i < wanted.len() {
        lemma_no_repeat(wanted, i + 1);
        if !repeats(wanted, i) && first_repeat(wanted, i + 1) is None {
            assert forall|j: int| i <= j < wanted.len() implies !#[trigger] repeats(wanted, j) by {
                if j > i {
                    assert(i + 1 <= j);
                }
            }
        }
    }
}

proof fn lemma_no_missing(wanted: Seq<Seq<char>>, there: Seq<Seq<char>>, i: int)
    requires
        0 <= i,
    ensures
        first_missing(wanted, there, i) is None <==> forall|j: int|
            i <= j < wanted.len() ==> there.contains(#[trigger] wanted[j]),
    decreases wanted.len() - i,
{
    if i < wanted.len() {
        lemma_no_missing(wanted, there, i + 1);
        lemma_index_of_contained(there, wanted[i]);
        if last_index(there, wanted[i]) >= 0 && first_missing(wanted, there, i + 1) is None {
            assert forall|j: int| i <= j < wanted.len() implies there.contains(
                #[trigger] wanted[j],
            ) by {
                if j > i {
                    assert(i + 1 <= j);
                }
            }
        }
    }
}

proof fn lemma_index_of_contained(names: Seq<Seq<char>>, name: Seq<char>)
    ensures
        last_index(names, name) >= 0 <==> names.contains(name),
    decreases names.len(),
{
    if names.len() > 0 {
        let front = names.drop_last();
        lemma_index_of_contained(front, name);
        if names.last() == name {
            assert(names[names.len() - 1] == name);
        } else if names.contains(name) {
            let i = choose|i: int| 0 <= i < names.len() && names[i] == name;
            assert(front[i] == name);
        } else if front.contains(name) {
            let i = choose|i: int| 0 <= i < front.len() && front[i] == name;
            assert(names[i] == name);
        }
    }
}

/// A wanted channel is read at the last place of its name, so that what is forwarded is
/// the value of that channel.
pub proof fn law_wanted_channel_is_found(names: Seq<Seq<char>>, name: Seq<char>, i: int)
    requires
        0 <= i < names.len(),
    ensures
        last_index(names, name) == i <==> names[i] == name && forall|k: int|
            i < k < names.len() ==> #[trigger] names[k] != name,
        last_index(names, name) < 0 ==> names[i] != name,
    decreases names.len(),
{
    let front = names.drop_last();
    lemma_last_index(names, name);
    if names.last() == name {
        assert(names[names.len() - 1] == name);
    } else if i < front.len() {
        law_wanted_channel_is_found(front, name, i);
        assert(front[i] == names[i]);
        assert forall|k: int| i < k < front.len() implies front[k] == #[trigger] names[k] by {}
        if forall|k: int| i < k < front.len() ==> #[trigger] front[k] != name {
            assert forall|k: int| i < k < names.len() implies #[trigger] names[k] != name by {
                if k < front.len() {
                    assert(front[k] != name);
                }
            }
        }
        if forall|k: int| i < k < names.len() ==> #[trigger] names[k] != name {
            assert forall|k: int| i < k < front.len() implies #[trigger] front[k] != name by {
                assert(names[k] != name);
            }
        }
    } else {
        lemma_last_index(front, name);
    }
}

} // verus!
