//! The receiver's settings and the allocator of destination folder names.

use crate::platform::{home_directory, join_path, path_join};
use crate::text::{
    chars_of, decimal, decimal_chars, equals, is_listed, names_contain, replace,
    replace_all, text_of, zero_padded, zero_padded_chars,
};
use vstd::prelude::*;

verus! {

/// The TCP port a receiver listens on unless its configuration names another.
pub const DEFAULT_PORT: u16 = 45678;

/// The port used when a stored configuration carries none.
pub fn default_port() -> (port: u16)
    ensures
        port == DEFAULT_PORT,
{
    DEFAULT_PORT
}

/// The next folder number of one day.
#[derive(Clone, Debug, PartialEq, Eq)]
pub struct DayCounter {
    pub day: String,
    pub next: u32,
}

/// What a receiver is configured with. `day_counters` is read as a map from day
/// label to next folder number in which the first entry of a day counts.
#[derive(Clone, Debug, PartialEq, Eq)]
pub struct ReceiverConfig {
    pub role: String,
    pub name: String,
    pub base_path: String,
    pub folder_template: String,
    pub folder_counter: u32,
    pub use_day_folders: bool,
    pub current_day: String,
    pub reset_numbering_daily: bool,
    pub day_counters: Vec<DayCounter>,
    pub port: u16,
}

/// Why a counter could not be set.
#[derive(Clone, Copy, Debug, PartialEq, Eq, Structural)]
pub enum CounterError {
    /// Folder numbers start at 1.
    BelowOne,
}

/// The number stored for `day`, if any: that of the first entry with this label.
pub open spec fn stored_counter(entries: Seq<DayCounter>, day: Seq<char>) -> Option<u32>
    decreases entries.len(),
{
    if entries.len() == 0 {
        None
    } else if entries[0].day@ == day {
        Some(entries[0].next)
    } else {
        stored_counter(entries.skip(1), day)
    }
}

/// The folder name that `template` gives for a sender, a folder number and the
/// local date and time. The tokens are replaced one after the other, in this
/// order: `{name}`, `{num:02d}`, `{num:03d}`, `{num}`, `{date}`, `{time}`.
pub open spec fn rendered_name(
    template: Seq<char>,
    photographer: Seq<char>,
    counter: u32,
    date: Seq<char>,
    time: Seq<char>,
) -> Seq<char> {
    let named = replace_all(template, "{name}"@, photographer);
    let two = replace_all(named, "{num:02d}"@, zero_padded(counter as nat, 2));
    let three = replace_all(two, "{num:03d}"@, zero_padded(counter as nat, 3));
    let plain = replace_all(three, "{num}"@, decimal(counter as nat));
    let dated = replace_all(plain, "{date}"@, date);
    replace_all(dated, "{time}"@, time)
}

/// Renders a folder name from a template; see [`rendered_name`].
pub fn render_folder_name(
    template: &str,
    photographer: &str,
    counter: u32,
    date: &str,
    time: &str,
) -> (name: String)
    ensures
        name@ == rendered_name(template@, photographer@, counter, date@, time@),
{
    let s = chars_of(template);
    let s = replace(&s, &chars_of("{name}"), &chars_of(photographer));
    let s = replace(&s, &chars_of("{num:02d}"), &zero_padded_chars(counter as u128, 2));
    let s = replace(&s, &chars_of("{num:03d}"), &zero_padded_chars(counter as u128, 3));
    let s = replace(&s, &chars_of("{num}"), &decimal_chars(counter as u128));
    let s = replace(&s, &chars_of("{date}"), &chars_of(date));
    let s = replace(&s, &chars_of("{time}"), &chars_of(time));
    text_of(&s)
}

/// The first folder number from `from` on, below `u32::MAX`, whose rendered
/// name is not among `existing`.
pub open spec fn first_free_counter(
    template: Seq<char>,
    photographer: Seq<char>,
    date: Seq<char>,
    time: Seq<char>,
    existing: Seq<Seq<char>>,
    from: u32,
) -> Option<u32>
    decreases u32::MAX - from,
{
    if from >= u32::MAX {
        None
    } else if !names_contain(existing, rendered_name(template, photographer, from, date, time)) {
        Some(from)
    } else {
        first_free_counter(template, photographer, date, time, existing, (from + 1) as u32)
    }
}

/// What [`first_free_counter`] finds is a number from `from` on whose name is
/// free, every number between has a name that is taken, and where it finds
/// none, every name up to the largest number is taken.
pub proof fn lemma_first_free_counter(
    template: Seq<char>,
    photographer: Seq<char>,
    date: Seq<char>,
    time: Seq<char>,
    existing: Seq<Seq<char>>,
    from: u32,
)
    ensures
        match first_free_counter(template, photographer, date, time, existing, from) {
            Some(won) => {
                &&& from <= won < u32::MAX
                &&& !names_contain(existing, rendered_name(template, photographer, won, date, time))
                &&& forall|n: u32|
                    from <= n < won ==> names_contain(
                        existing,
                        #[trigger] rendered_name(template, photographer, n, date, time),
                    )
            },
            None => forall|n: u32|
                from <= n < u32::MAX ==> names_contain(
                    existing,
                    #[trigger] rendered_name(template, photographer, n, date, time),
                ),
        },
    decreases u32::MAX - from,
{
    if from < u32::MAX && names_contain(
        existing,
        rendered_name(template, photographer, from, date, time),
    ) {
        lemma_first_free_counter(template, photographer, date, time, existing, (from + 1) as u32);
    }
}

/// The names that a template gives for `count` numbers in a row, from `from`
/// on.
pub open spec fn rendered_run(
    template: Seq<char>,
    photographer: Seq<char>,
    date: Seq<char>,
    time: Seq<char>,
    from: u32,
    count: nat,
) -> Seq<Seq<char>> {
    Seq::new(count, |i: int| rendered_name(template, photographer, (from + i) as u32, date, time))
}

/// Where a template gives different names for different numbers, a free name
/// is found after no more attempts than the destination has entries, and one:
/// that many names cannot all be taken. A template that gives the same name
/// for every number has no such bound.
pub proof fn lemma_free_counter_is_near(
    template: Seq<char>,
    photographer: Seq<char>,
    date: Seq<char>,
    time: Seq<char>,
    existing: Seq<Seq<char>>,
    from: u32,
)
    requires
        from + existing.len() < u32::MAX,
        rendered_run(template, photographer, date, time, from, existing.len() + 1).no_duplicates(),
    ensures
        first_free_counter(template, photographer, date, time, existing, from) matches Some(won)
            && from <= won <= from + existing.len(),
{
    broadcast use vstd::seq_lib::seq_to_set_is_finite;

    let run = rendered_run(template, photographer, date, time, from, existing.len() + 1);
    let found = first_free_counter(template, photographer, date, time, existing, from);
    lemma_first_free_counter(template, photographer, date, time, existing, from);
    if !(found matches Some(won) && won <= from + existing.len()) {
        assert forall|name: Seq<char>| run.to_set().contains(name) implies existing.to_set().contains(
            name,
        ) by {
            let i = choose|i: int| 0 <= i < run.len() && run[i] == name;
            let n = (from + i) as u32;
            assert(from <= n < u32::MAX);
            assert(names_contain(existing, rendered_name(template, photographer, n, date, time)));
        }
        run.unique_seq_to_set();
        existing.lemma_cardinality_of_set();
        vstd::set_lib::lemma_len_subset(run.to_set(), existing.to_set());
    }
}

/// The index of the first entry for `day`, or the number of entries.
fn find_day(entries: &Vec<DayCounter>, day: &str) -> (at: usize)
    ensures
        at <= entries.len(),
        forall|j: int| 0 <= j < at ==> (#[trigger] entries@[j]).day@ != day@,
        at < entries.len() ==> entries@[at as int].day@ == day@,
{
    let mut i: usize = 0;
    while i < entries.len()
        invariant
            i <= entries.len(),
            forall|j: int| 0 <= j < i ==> (#[trigger] entries@[j]).day@ != day@,
        decreases entries.len() - i,
    {
        if equals(entries[i].day.as_str(), day) {
            return i;
        }
        i += 1;
    }
    i
}

/// What is stored for `day` is decided by the first entry with that label.
pub proof fn lemma_stored_counter(entries: Seq<DayCounter>, day: Seq<char>, at: int)
    requires
        0 <= at <= entries.len(),
        forall|j: int| 0 <= j < at ==> (#[trigger] entries[j]).day@ != day,
        at < entries.len() ==> entries[at].day@ == day,
    ensures
        stored_counter(entries, day) == (if at < entries.len() {
            Some(entries[at].next)
        } else {
            None
        }),
    decreases entries.len(),
{
    if entries.len() == 0 {
    } else if at == 0 {
    } else {
        assert(entries[0].day@ != day);
        let rest = entries.skip(1);
        assert forall|j: int| 0 <= j < at - 1 implies (#[trigger] rest[j]).day@ != day by {
            assert(rest[j] == entries[j + 1]);
        }
        lemma_stored_counter(rest, day, at - 1);
    }
}

/// The index of the first entry for `day`, or the number of entries.
pub open spec fn first_entry(entries: Seq<DayCounter>, day: Seq<char>) -> int
    decreases entries.len(),
{
    if entries.len() == 0 {
        0
    } else if entries[0].day@ == day {
        0
    } else {
        1 + first_entry(entries.skip(1), day)
    }
}

/// [`first_entry`] is the index that [`lemma_stored_counter`] asks for.
pub proof fn lemma_first_entry(entries: Seq<DayCounter>, day: Seq<char>)
    ensures
        0 <= first_entry(entries, day) <= entries.len(),
        forall|j: int| 0 <= j < first_entry(entries, day) ==> (#[trigger] entries[j]).day@ != day,
        first_entry(entries, day) < entries.len() ==> entries[first_entry(entries, day)].day@
            == day,
    decreases entries.len(),
{
    if entries.len() == 0 {
    } else if entries[0].day@ == day {
    } else {
        let rest = entries.skip(1);
        lemma_first_entry(rest, day);
        let k = first_entry(rest, day);
        assert forall|j: int| 0 <= j < 1 + k implies (#[trigger] entries[j]).day@ != day by {
            if j > 0 {
                assert(rest[j - 1] == entries[j]);
            }
        }
        if 1 + k < entries.len() {
            assert(rest[k] == entries[1 + k]);
        }
    }
}

impl ReceiverConfig {
    /// Whether folder numbers are kept per day: a tagger that files by day.
    pub open spec fn counts_per_day(&self) -> bool {
        self.use_day_folders && self.role@ == "tagger"@
    }

    /// The next folder number of `day`; a day without an entry starts at 1.
    pub open spec fn day_counter(&self, day: Seq<char>) -> u32 {
        match stored_counter(self.day_counters@, day) {
            Some(n) => n,
            None => 1,
        }
    }

    /// The folder number the next allocation uses.
    pub open spec fn current_counter(&self) -> u32 {
        if self.counts_per_day() {
            self.day_counter(self.current_day@)
        } else {
            self.folder_counter
        }
    }

    /// Everything but the counters is the same in `self` and `other`.
    pub open spec fn same_settings(&self, other: &ReceiverConfig) -> bool {
        &&& self.role@ == other.role@
        &&& self.name@ == other.name@
        &&& self.base_path@ == other.base_path@
        &&& self.folder_template@ == other.folder_template@
        &&& self.use_day_folders == other.use_day_folders
        &&& self.current_day@ == other.current_day@
        &&& self.reset_numbering_daily == other.reset_numbering_daily
        &&& self.port == other.port
    }

    /// All counters but the one the next allocation uses are the same in `self`
    /// and `other`.
    pub open spec fn same_other_counters(&self, other: &ReceiverConfig) -> bool {
        if self.counts_per_day() {
            &&& self.folder_counter == other.folder_counter
            &&& forall|day: Seq<char>|
                day != self.current_day@ ==> stored_counter(self.day_counters@, day)
                    == stored_counter(other.day_counters@, day)
        } else {
            forall|day: Seq<char>|
                stored_counter(self.day_counters@, day) == stored_counter(
                    other.day_counters@,
                    day,
                )
        }
    }

    /// The destination path of `folder_name` under this configuration.
    pub open spec fn full_path(&self, folder_name: Seq<char>) -> Seq<char> {
        if self.counts_per_day() {
            path_join(path_join(self.base_path@, self.current_day@), folder_name)
        } else {
            path_join(self.base_path@, folder_name)
        }
    }

    /// Whether folder numbers are kept per day.
    pub fn is_counting_per_day(&self) -> (r: bool)
        ensures
            r == self.counts_per_day(),
    {
        self.use_day_folders && equals(self.role.as_str(), "tagger")
    }

    /// The next folder number of `day`: 1 for a day that has none yet.
    pub fn get_day_counter(&self, day: &str) -> (n: u32)
        ensures
            n == self.day_counter(day@),
    {
        let at = find_day(&self.day_counters, day);
        proof {
            lemma_stored_counter(self.day_counters@, day@, at as int);
        }
        if at < self.day_counters.len() {
            self.day_counters[at].next
        } else {
            1
        }
    }

    /// Stores `value` as the next folder number of `day`. Numbers below 1 are
    /// rejected and change nothing.
    pub fn set_day_counter(&mut self, day: &str, value: u32) -> (r: Result<(), CounterError>)
        ensures
            r is Err <==> value < 1,
            r matches Err(e) ==> e == CounterError::BelowOne && *final(self) == *old(self),
            r is Ok ==> {
                &&& final(self).same_settings(old(self))
                &&& final(self).folder_counter == old(self).folder_counter
                &&& stored_counter(final(self).day_counters@, day@) == Some(value)
                &&& forall|other: Seq<char>|
                    other != day@ ==> stored_counter(final(self).day_counters@, other)
                        == stored_counter(old(self).day_counters@, other)
            },
    {
        if value < 1 {
            return Err(CounterError::BelowOne);
        }
        self.store_day_counter(day, value);
        Ok(())
    }

    /// Stores `value` for `day`, in the first entry of that day or in a new one.
    fn store_day_counter(&mut self, day: &str, value: u32)
        ensures
            final(self).same_settings(old(self)),
            final(self).folder_counter == old(self).folder_counter,
            stored_counter(final(self).day_counters@, day@) == Some(value),
            forall|other: Seq<char>|
                other != day@ ==> stored_counter(final(self).day_counters@, other)
                    == stored_counter(old(self).day_counters@, other),
    {
        let ghost before = self.day_counters@;
        let at = find_day(&self.day_counters, day);
        let entry = DayCounter { day: day.to_owned(), next: value };
        if at < self.day_counters.len() {
            self.day_counters.set(at, entry);
        } else {
            self.day_counters.push(entry);
        }
        proof {
            let after = self.day_counters@;
            lemma_stored_counter(after, day@, at as int);
            assert forall|other: Seq<char>| other != day@ implies stored_counter(after, other)
                == stored_counter(before, other) by {
                lemma_first_entry(before, other);
                let k = first_entry(before, other);
                if k < before.len() {
                    assert(k != at);
                    assert(after[k] == before[k]);
                }
                assert forall|j: int| 0 <= j < k implies (#[trigger] after[j]).day@ != other by {
                    if j == at {
                    } else {
                        assert(after[j] == before[j]);
                    }
                }
                if k == before.len() && after.len() > before.len() {
                    assert(after[k].day@ == day@);
                    assert forall|j: int| 0 <= j < after.len() implies (#[trigger] after[j]).day@
                        != other by {
                        if j < k {
                        }
                    }
                    lemma_stored_counter(after, other, after.len() as int);
                    lemma_stored_counter(before, other, k);
                } else {
                    lemma_stored_counter(after, other, k);
                    lemma_stored_counter(before, other, k);
                }
            }
        }
    }

    /// Forgets the number of `day`, so that the day starts at 1 again.
    pub fn reset_day_counter(&mut self, day: &str)
        ensures
            final(self).same_settings(old(self)),
            final(self).folder_counter == old(self).folder_counter,
            stored_counter(final(self).day_counters@, day@) is None,
            forall|other: Seq<char>|
                other != day@ ==> stored_counter(final(self).day_counters@, other)
                    == stored_counter(old(self).day_counters@, other),
    {
        let ghost before = self.day_counters@;
        let mut kept: Vec<DayCounter> = Vec::new();
        let mut i: usize = 0;
        while i < self.day_counters.len()
            invariant
                i <= self.day_counters.len(),
                self.day_counters@ == before,
                *self == *old(self),
                forall|j: int| 0 <= j < kept.len() ==> (#[trigger] kept@[j]).day@ != day@,
                forall|other: Seq<char>|
                    other != day@ ==> stored_counter(kept@, other) == stored_counter(
                        before.take(i as int),
                        other,
                    ),
            decreases self.day_counters.len() - i,
        {
            let ghost kept_before = kept@;
            let same = equals(self.day_counters[i].day.as_str(), day);
            if !same {
                let entry = DayCounter {
                    day: self.day_counters[i].day.clone(),
                    next: self.day_counters[i].next,
                };
                kept.push(entry);
            }
            proof {
                let prefix = before.take(i as int);
                let longer = before.take(i + 1);
                assert(longer =~= prefix.push(before[i as int]));
                assert forall|other: Seq<char>| other != day@ implies stored_counter(kept@, other)
                    == stored_counter(longer, other) by {
                    lemma_stored_push(prefix, before[i as int], other);
                    if !same {
                        lemma_stored_push(kept_before, kept@[kept.len() - 1], other);
                        assert(kept@ =~= kept_before.push(kept@[kept.len() - 1]));
                    }
                }
            }
            i += 1;
        }
        proof {
            assert(before.take(before.len() as int) =~= before);
            lemma_stored_counter(kept@, day@, kept.len() as int);
        }
        self.day_counters = kept;
    }

    /// Starts every numbering at 1 again.
    pub fn reset_all_counters(&mut self)
        ensures
            final(self).same_settings(old(self)),
            final(self).folder_counter == 1,
            final(self).day_counters@.len() == 0,
            forall|day: Seq<char>| final(self).day_counter(day) == 1,
    {
        self.day_counters = Vec::new();
        self.folder_counter = 1;
    }

    /// The folder number the next allocation uses.
    pub fn get_current_counter(&self) -> (n: u32)
        ensures
            n == self.current_counter(),
    {
        if self.is_counting_per_day() {
            self.get_day_counter(self.current_day.as_str())
        } else {
            self.folder_counter
        }
    }

    /// Moves the current numbering on by one.
    pub fn increment_counter(&mut self)
        requires
            old(self).current_counter() < u32::MAX,
        ensures
            final(self).current_counter() == old(self).current_counter() + 1,
            final(self).same_settings(old(self)),
            old(self).same_other_counters(final(self)),
    {
        if self.is_counting_per_day() {
            let day = self.current_day.clone();
            let n = self.get_day_counter(day.as_str());
            self.store_day_counter(day.as_str(), n + 1);
        } else {
            self.folder_counter = self.folder_counter + 1;
        }
    }

    /// Renders the folder name for the current number and moves the numbering
    /// on, whether or not a folder of that name exists.
    pub fn generate_folder_name(&mut self, photographer: &str, date: &str, time: &str) -> (name:
        String)
        requires
            old(self).current_counter() < u32::MAX,
        ensures
            name@ == rendered_name(
                old(self).folder_template@,
                photographer@,
                old(self).current_counter(),
                date@,
                time@,
            ),
            final(self).current_counter() == old(self).current_counter() + 1,
            final(self).same_settings(old(self)),
            old(self).same_other_counters(final(self)),
    {
        let counter = self.get_current_counter();
        let name = render_folder_name(
            self.folder_template.as_str(),
            photographer,
            counter,
            date,
            time,
        );
        self.increment_counter();
        name
    }

    /// Allocates a folder name that is not among `existing`, the names present
    /// in the destination scope. Every attempt uses up a number, so the
    /// numbering ends one past the number of the name returned. `None` means
    /// that every number up to the largest is taken; the numbering then stands
    /// at `u32::MAX`.
    pub fn generate_unique_folder_name(
        &mut self,
        photographer: &str,
        date: &str,
        time: &str,
        existing: &Vec<String>,
    ) -> (name: Option<String>)
        ensures
            match first_free_counter(
                old(self).folder_template@,
                photographer@,
                date@,
                time@,
                existing.deep_view(),
                old(self).current_counter(),
            ) {
                Some(won) => {
                    &&& name is Some
                    &&& name->0@ == rendered_name(
                        old(self).folder_template@,
                        photographer@,
                        won,
                        date@,
                        time@,
                    )
                    &&& final(self).current_counter() == won + 1
                },
                None => name is None && final(self).current_counter() == u32::MAX,
            },
            name matches Some(n) ==> !names_contain(existing.deep_view(), n@),
            final(self).current_counter() >= old(self).current_counter(),
            final(self).same_settings(old(self)),
            old(self).same_other_counters(final(self)),
    {
        loop
            invariant
                self.same_settings(old(self)),
                old(self).same_other_counters(self),
                self.current_counter() >= old(self).current_counter(),
                first_free_counter(
                    old(self).folder_template@,
                    photographer@,
                    date@,
                    time@,
                    existing.deep_view(),
                    old(self).current_counter(),
                ) == first_free_counter(
                    old(self).folder_template@,
                    photographer@,
                    date@,
                    time@,
                    existing.deep_view(),
                    self.current_counter(),
                ),
            decreases u32::MAX - self.current_counter(),
        {
            let counter = self.get_current_counter();
            if counter == u32::MAX {
                return None;
            }
            let name = render_folder_name(
                self.folder_template.as_str(),
                photographer,
                counter,
                date,
                time,
            );
            self.increment_counter();
            if !is_listed(existing, name.as_str()) {
                return Some(name);
            }
        }
    }

    /// The destination path of `folder_name`: under the current day for a
    /// tagger that files by day, directly under the base path otherwise.
    pub fn get_full_path(&self, folder_name: &str) -> (path: String)
        ensures
            path@ == self.full_path(folder_name@),
    {
        if self.is_counting_per_day() {
            let day_dir = join_path(self.base_path.as_str(), self.current_day.as_str());
            join_path(day_dir.as_str(), folder_name)
        } else {
            join_path(self.base_path.as_str(), folder_name)
        }
    }

    /// The port to listen on: the configured one, or the default where the
    /// configuration says 0.
    pub fn listen_port(&self) -> (port: u16)
        ensures
            port == (if self.port > 0 {
                self.port
            } else {
                DEFAULT_PORT
            }),
    {
        if self.port > 0 {
            self.port
        } else {
            DEFAULT_PORT
        }
    }
}

/// Appending an entry changes what is stored only for a day that had no entry.
pub proof fn lemma_stored_push(entries: Seq<DayCounter>, entry: DayCounter, day: Seq<char>)
    ensures
        stored_counter(entries.push(entry), day) == (match stored_counter(entries, day) {
            Some(n) => Some(n),
            None => if entry.day@ == day {
                Some(entry.next)
            } else {
                None
            },
        }),
    decreases entries.len(),
{
    let longer = entries.push(entry);
    if entries.len() == 0 {
        assert(longer[0] == entry);
        assert(longer.skip(1) =~= Seq::<DayCounter>::empty());
        assert(stored_counter(longer.skip(1), day) is None);
    } else if entries[0].day@ == day {
        assert(longer[0] == entries[0]);
    } else {
        assert(longer[0] == entries[0]);
        assert(longer.skip(1) =~= entries.skip(1).push(entry));
        lemma_stored_push(entries.skip(1), entry, day);
    }
}

/// What the library keeps in the user's home directory.
#[derive(Clone, Copy, Debug, PartialEq, Eq, Structural)]
pub enum StoredFile {
    /// The configuration of a receiver.
    ReceiverConfig,
    /// The history of what a receiver received.
    History,
    /// The history of what a receiver sent on.
    SentHistory,
    /// The history of what a sender sent.
    SendHistory,
    /// The configuration of a sender.
    SenderConfig,
}

impl StoredFile {
    /// The name of the file.
    pub open spec fn file_name(self) -> Seq<char> {
        match self {
            StoredFile::ReceiverConfig => ".porn_transfer_receiver.json"@,
            StoredFile::History => ".porn_transfer_history.json"@,
            StoredFile::SentHistory => ".porn_transfer_sent_history.json"@,
            StoredFile::SendHistory => ".photo_transfer_send_history.json"@,
            StoredFile::SenderConfig => ".photo_transfer_sender_tauri.json"@,
        }
    }
}

/// The path of a stored file: in the home directory, or in the current
/// directory where no home is known.
pub open spec fn stored_path(home: Option<Seq<char>>, file: StoredFile) -> Seq<char> {
    path_join(
        match home {
            Some(h) => h,
            None => "."@,
        },
        file.file_name(),
    )
}

/// The base path of a receiver that was given none: `PornTransfer` in the home
/// directory.
pub open spec fn default_base_path(home: Option<Seq<char>>) -> Seq<char> {
    match home {
        Some(h) => path_join(h, "PornTransfer"@),
        None => "~/PornTransfer"@,
    }
}

/// The path of a stored file; see [`stored_path`].
pub fn stored_path_in(home: &Option<String>, file: StoredFile) -> (path: String)
    ensures
        path@ == stored_path(home.deep_view(), file),
{
    let name = match file {
        StoredFile::ReceiverConfig => ".porn_transfer_receiver.json",
        StoredFile::History => ".porn_transfer_history.json",
        StoredFile::SentHistory => ".porn_transfer_sent_history.json",
        StoredFile::SendHistory => ".photo_transfer_send_history.json",
        StoredFile::SenderConfig => ".photo_transfer_sender_tauri.json",
    };
    match home {
        Some(h) => join_path(h.as_str(), name),
        None => join_path(".", name),
    }
}

/// The path of a stored file on this machine. Which home directory the machine
/// gives is not known beforehand.
pub fn stored_path_here(file: StoredFile) -> (path: String)
    ensures
        exists|home: Option<Seq<char>>| path@ == stored_path(home, file),
{
    let home = home_directory();
    let path = stored_path_in(&home, file);
    proof {
        assert(path@ == stored_path(home.deep_view(), file));
    }
    path
}

impl ReceiverConfig {
    /// What a value is like that [`ReceiverConfig::with_home`] gives for `home`.
    pub open spec fn is_default_for(&self, home: Option<Seq<char>>) -> bool {
        &&& self.role@ == "tagger"@
        &&& self.name@.len() == 0
        &&& self.base_path@ == default_base_path(home)
        &&& self.folder_template@ == "{num:02d} - {name}"@
        &&& self.folder_counter == 1
        &&& self.use_day_folders
        &&& self.current_day@ == "DAY 1"@
        &&& self.reset_numbering_daily
        &&& self.day_counters@.len() == 0
        &&& self.port == DEFAULT_PORT
    }

    /// The configuration of a receiver that was never configured: a tagger
    /// without a name that files by day, numbers from 1, and listens on the
    /// default port.
    pub fn with_home(home: &Option<String>) -> (config: ReceiverConfig)
        ensures
            config.is_default_for(home.deep_view()),
    {
        let base_path = match home {
            Some(h) => join_path(h.as_str(), "PornTransfer"),
            None => "~/PornTransfer".to_owned(),
        };
        ReceiverConfig {
            role: "tagger".to_owned(),
            name: String::new(),
            base_path,
            folder_template: "{num:02d} - {name}".to_owned(),
            folder_counter: 1,
            use_day_folders: true,
            current_day: "DAY 1".to_owned(),
            reset_numbering_daily: true,
            day_counters: Vec::new(),
            port: DEFAULT_PORT,
        }
    }

    /// Where the configuration of a receiver is stored on this machine.
    pub fn config_path() -> (path: String)
        ensures
            exists|home: Option<Seq<char>>| path@ == stored_path(home, StoredFile::ReceiverConfig),
    {
        stored_path_here(StoredFile::ReceiverConfig)
    }

    /// Takes over the settings that the user edited. The counters are not the
    /// user's to edit: they stay as they are.
    pub fn adopt_settings(&mut self, edited: ReceiverConfig)
        ensures
            final(self).same_settings(&edited),
            final(self).folder_counter == old(self).folder_counter,
            final(self).day_counters == old(self).day_counters,
    {
        self.role = edited.role;
        self.name = edited.name;
        self.base_path = edited.base_path;
        self.folder_template = edited.folder_template;
        self.use_day_folders = edited.use_day_folders;
        self.current_day = edited.current_day;
        self.reset_numbering_daily = edited.reset_numbering_daily;
        self.port = edited.port;
    }

    /// A copy of this configuration.
    pub fn duplicate(&self) -> (copy: ReceiverConfig)
        ensures
            copy.same_settings(self),
            copy.folder_counter == self.folder_counter,
            copy.day_counters@.len() == self.day_counters@.len(),
            forall|i: int|
                0 <= i < self.day_counters@.len() ==> (#[trigger] copy.day_counters@[i]).day@
                    == self.day_counters@[i].day@ && copy.day_counters@[i].next
                    == self.day_counters@[i].next,
    {
        let mut counters: Vec<DayCounter> = Vec::new();
        let mut i: usize = 0;
        while i < self.day_counters.len()
            invariant
                i <= self.day_counters.len(),
                counters.len() == i,
                forall|j: int|
                    0 <= j < i ==> (#[trigger] counters@[j]).day@ == self.day_counters@[j].day@
                        && counters@[j].next == self.day_counters@[j].next,
            decreases self.day_counters.len() - i,
        {
            counters.push(
                DayCounter { day: self.day_counters[i].day.clone(), next: self.day_counters[i].next },
            );
            i += 1;
        }
        ReceiverConfig {
            role: self.role.clone(),
            name: self.name.clone(),
            base_path: self.base_path.clone(),
            folder_template: self.folder_template.clone(),
            folder_counter: self.folder_counter,
            use_day_folders: self.use_day_folders,
            current_day: self.current_day.clone(),
            reset_numbering_daily: self.reset_numbering_daily,
            day_counters: counters,
            port: self.port,
        }
    }
}

impl Default for ReceiverConfig {
    /// The configuration of a receiver that was never configured, on this
    /// machine; see [`ReceiverConfig::with_home`].
    fn default() -> (config: ReceiverConfig)
        ensures
            exists|home: Option<Seq<char>>| config.is_default_for(home),
    {
        let home = home_directory();
        let config = ReceiverConfig::with_home(&home);
        proof {
            assert(config.is_default_for(home.deep_view()));
        }
        config
    }
}

} // verus!
