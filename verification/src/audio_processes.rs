//! The programs whose sound can be captured.

use vstd::prelude::*;

use crate::ordering::{comes_first, is_sorting_of, present, present_items, reversed, sort, text_le, Ranked};
use crate::text::{blank, is_blank, lowercase, lowercased, trim, trimmed};

verus! {

/// What is said where the system does not let the sound of a program be captured.
pub const UNSUPPORTED_CAPTURE: &'static str = "Process audio capture is currently implemented only on Windows.";

/// A program whose sound can be captured.
#[derive(Clone, Debug)]
pub struct AudioProcessTarget {
    pub pid: u32,
    pub name: String,
    pub window_title: Option<String>,
    pub executable_path: Option<String>,
    pub command_line: Option<String>,
    pub session_id: Option<u32>,
    pub has_audio_session: bool,
    pub audio_session_count: u32,
}

/// What the program that lists the programs came to.
pub struct ListingOutput {
    pub success: bool,
    pub stdout: String,
    pub stderr: String,
}

/// The text of a listing, or nothing where it is blank. A listing that failed says why; `output` is
/// an error where it could not be made at all.
pub fn listing_text(output: Result<ListingOutput, String>) -> (text: Result<Option<String>, String>)
    ensures
        match output {
            Err(error) => text is Err && text->Err_0@ == "Failed to run PowerShell process listing: "@ + error@,
            Ok(output) => if !output.success {
                text is Err && text->Err_0@ == trim(output.stderr@)
            } else if is_blank(output.stdout@) {
                text is Ok && text->Ok_0 is None
            } else {
                text is Ok && text->Ok_0 is Some && text->Ok_0->0@ == trim(output.stdout@)
            },
        },
{
    match output {
        Err(error) => Err("Failed to run PowerShell process listing: ".to_string().concat(error.as_str())),
        Ok(output) => {
            if !output.success {
                Err(trimmed(output.stderr.as_str()))
            } else if blank(output.stdout.as_str()) {
                Ok(None)
            } else {
                Ok(Some(trimmed(output.stdout.as_str())))
            }
        },
    }
}

/// What a listing holds.
pub enum Listing {
    /// A list; an entry that cannot be read is `None`.
    Items(Vec<Option<AudioProcessTarget>>),
    /// A single entry, or why it cannot be read.
    One(Result<AudioProcessTarget, String>),
    /// Neither of these.
    Other,
}

/// Takes the programs out of a listing. Entries of a list that cannot be read are left out; a single
/// entry has to be readable. `listing` is an error where it cannot be read at all, and nothing where
/// there is no text.
pub fn processes_read(listing: Option<Result<Listing, String>>) -> (read: Result<Vec<AudioProcessTarget>, String>)
    ensures
        match listing {
            Some(Err(error)) => read is Err && read->Err_0@ == "Failed to parse process list: "@ + error@,
            Some(Ok(Listing::Items(items))) => read is Ok && read->Ok_0@ == present(items@),
            Some(Ok(Listing::One(Ok(process)))) => read is Ok && read->Ok_0@ == seq![process],
            Some(Ok(Listing::One(Err(error)))) => read is Err && read->Err_0@
                == "Failed to parse process list item: "@ + error@,
            Some(Ok(Listing::Other)) => read is Ok && read->Ok_0@ == Seq::<AudioProcessTarget>::empty(),
            None => read is Ok && read->Ok_0@ == Seq::<AudioProcessTarget>::empty(),
        },
{
    match listing {
        Some(Err(error)) => Err("Failed to parse process list: ".to_string().concat(error.as_str())),
        Some(Ok(Listing::Items(items))) => Ok(present_items(items)),
        Some(Ok(Listing::One(Ok(process)))) => {
            let mut processes: Vec<AudioProcessTarget> = Vec::new();
            processes.push(process);
            assert(processes@ =~= seq![process]);
            Ok(processes)
        },
        Some(Ok(Listing::One(Err(error)))) => Err(
            "Failed to parse process list item: ".to_string().concat(error.as_str()),
        ),
        Some(Ok(Listing::Other)) => Ok(Vec::new()),
        None => Ok(Vec::new()),
    }
}

/// How many of the audio sessions, given by the programs they belong to, are those of `pid`. A
/// session of no program counts for none.
pub open spec fn session_count(sessions: Seq<u32>, pid: u32) -> nat
    decreases sessions.len(),
{
    if sessions.len() == 0 {
        0
    } else {
        session_count(sessions.drop_last(), pid) + if sessions.last() == pid && pid > 0 {
            1nat
        } else {
            0nat
        }
    }
}

/// How many of the audio sessions are those of `pid`.
pub fn count_sessions(sessions: &Vec<u32>, pid: u32) -> (count: u32)
    requires
        sessions@.len() <= u32::MAX,
    ensures
        count == session_count(sessions@, pid),
{
    let mut count: u32 = 0;
    let mut i: usize = 0;
    while i < sessions.len()
        invariant
            i <= sessions@.len() <= u32::MAX,
            count <= i,
            count == session_count(sessions@.take(i as int), pid),
        decreases sessions@.len() - i,
    {
        assert(sessions@.take(i + 1).drop_last() == sessions@.take(i as int));
        if sessions[i] == pid && pid > 0 {
            count += 1;
        }
        i += 1;
    }
    assert(sessions@.take(i as int) == sessions@);
    count
}

/// The program, with its audio sessions counted.
pub open spec fn annotated(process: AudioProcessTarget, sessions: Seq<u32>) -> AudioProcessTarget {
    AudioProcessTarget {
        has_audio_session: session_count(sessions, process.pid) > 0,
        audio_session_count: session_count(sessions, process.pid) as u32,
        ..process
    }
}

/// A program is listed: it has a number, and a name.
pub open spec fn is_listed(process: AudioProcessTarget) -> bool {
    process.pid > 0 && !is_blank(process.name@)
}

/// A program, and its name in lower case.
pub struct KeyedProcess {
    pub process: AudioProcessTarget,
    pub key: String,
}

impl Ranked for KeyedProcess {
    /// Programs with sound come first, those with more sessions before those with fewer; then the
    /// names, and the numbers, decide.
    open spec fn ranks_before(&self, other: &Self) -> bool {
        if self.process.has_audio_session != other.process.has_audio_session {
            self.process.has_audio_session
        } else if self.process.audio_session_count != other.process.audio_session_count {
            self.process.audio_session_count > other.process.audio_session_count
        } else if self.key@ != other.key@ {
            text_le(self.key@, other.key@)
        } else {
            self.process.pid <= other.process.pid
        }
    }

    proof fn ranks_total(&self, other: &Self) {
        crate::ordering::lemma_text_le_total(self.key@, other.key@);
    }

    proof fn ranks_transitive(&self, middle: &Self, other: &Self) {
        if text_le(self.key@, middle.key@) && text_le(middle.key@, other.key@) {
            crate::ordering::lemma_text_le_transitive(self.key@, middle.key@, other.key@);
            if self.key@ == other.key@ {
                crate::ordering::lemma_text_le_antisymmetric(self.key@, middle.key@);
            }
        }
    }

    fn may_precede(&self, other: &Self) -> (yes: bool) {
        if self.process.has_audio_session != other.process.has_audio_session {
            self.process.has_audio_session
        } else if self.process.audio_session_count != other.process.audio_session_count {
            self.process.audio_session_count > other.process.audio_session_count
        } else {
            let first = comes_first(self.key.as_str(), other.key.as_str());
            let last = comes_first(other.key.as_str(), self.key.as_str());
            if first && last {
                proof {
                    crate::ordering::lemma_text_le_antisymmetric(self.key@, other.key@);
                }
                self.process.pid <= other.process.pid
            } else {
                proof {
                    if self.key@ == other.key@ {
                        crate::ordering::lemma_text_le_total(self.key@, other.key@);
                    }
                }
                first
            }
        }
    }
}

/// Each of `keyed` has the lower-case form of its name beside it.
pub open spec fn keys_fit(keyed: Seq<KeyedProcess>) -> bool {
    forall|i: int| 0 <= i < keyed.len() ==> (#[trigger] keyed[i]).key@ == lowercase(keyed[i].process.name@)
}

/// The programs of a list with keys.
pub open spec fn processes_of(keyed: Seq<KeyedProcess>) -> Seq<AudioProcessTarget> {
    keyed.map_values(|keyed: KeyedProcess| keyed.process)
}

/// Orders programs that have the lower-case forms of their names beside them.
pub fn arrange_processes(keyed: Vec<KeyedProcess>) -> (arranged: Vec<AudioProcessTarget>)
    ensures
        exists|sorted: Seq<KeyedProcess>| #[trigger]
            is_sorting_of(sorted, keyed@) && arranged@ == processes_of(sorted),
{
    let sorted = sort(keyed);
    let ghost all = sorted@;
    let mut reversed = reversed(sorted);
    let mut arranged: Vec<AudioProcessTarget> = Vec::new();
    while reversed.len() > 0
        invariant
            arranged@.len() + reversed@.len() == all.len(),
            forall|i: int| 0 <= i < reversed@.len() ==> #[trigger] reversed@[i] == all[all.len() - 1 - i],
            forall|i: int| 0 <= i < arranged@.len() ==> #[trigger] arranged@[i] == all[i].process,
        decreases reversed@.len(),
    {
        match reversed.pop() {
            Some(keyed) => {
                arranged.push(keyed.process);
            },
            None => {},
        }
    }
    assert(arranged@ =~= processes_of(all));
    arranged
}

/// The programs that are listed, with their audio sessions counted.
pub open spec fn listed_processes(processes: Seq<AudioProcessTarget>, sessions: Seq<u32>) -> Seq<AudioProcessTarget> {
    processes.map_values(|process: AudioProcessTarget| annotated(process, sessions)).filter(
        |process: AudioProcessTarget| is_listed(process),
    )
}

/// Lists the programs whose sound can be captured. `sessions` gives, for each audio session, the
/// program it belongs to.
pub fn list_audio_processes(processes: Vec<AudioProcessTarget>, sessions: &Vec<u32>) -> (listed: Vec<
    AudioProcessTarget,
>)
    requires
        sessions@.len() <= u32::MAX,
    ensures
        exists|keyed: Seq<KeyedProcess>, sorted: Seq<KeyedProcess>| #[trigger]
            is_sorting_of(sorted, keyed) && keys_fit(keyed) && processes_of(keyed) == listed_processes(
                processes@,
                sessions@,
            ) && listed@ == processes_of(sorted),
{
    let ghost given = processes@;
    let ghost counted = given.map_values(|process: AudioProcessTarget| annotated(process, sessions@));
    let ghost keep = |process: AudioProcessTarget| is_listed(process);
    let mut reversed = reversed(processes);
    let mut keyed: Vec<KeyedProcess> = Vec::new();
    let ghost mut seen: int = 0;
    while reversed.len() > 0
        invariant
            sessions@.len() <= u32::MAX,
            seen + reversed@.len() == given.len(),
            0 <= seen,
            counted == given.map_values(|process: AudioProcessTarget| annotated(process, sessions@)),
            keep == (|process: AudioProcessTarget| is_listed(process)),
            forall|i: int| 0 <= i < reversed@.len() ==> #[trigger] reversed@[i] == given[given.len() - 1 - i],
            keys_fit(keyed@),
            processes_of(keyed@) == counted.take(seen).filter(keep),
        decreases reversed@.len(),
    {
        proof {
            reveal(Seq::filter);
            assert(counted.take(seen + 1).drop_last() == counted.take(seen));
        }
        let ghost before = keyed@;
        match reversed.pop() {
            Some(process) => {
                assert(process == given[seen]);
                let count: u32 = count_sessions(sessions, process.pid);
                let mut process = process;
                process.audio_session_count = count;
                process.has_audio_session = count > 0;
                assert(process == counted[seen]);
                if process.pid > 0 && !blank(process.name.as_str()) {
                    let key = lowercased(process.name.as_str());
                    keyed.push(KeyedProcess { process, key });
                    assert(processes_of(keyed@) =~= processes_of(before).push(process));
                }
            },
            None => {},
        }
        proof {
            seen = seen + 1;
        }
    }
    assert(counted.take(seen) == counted);
    arrange_processes(keyed)
}

/// In a list of programs, those with sound stand before those without.
pub proof fn law_programs_with_sound_come_first(
    keyed: Seq<KeyedProcess>,
    sorted: Seq<KeyedProcess>,
    i: int,
    j: int,
)
    requires
        is_sorting_of(sorted, keyed),
        0 <= i < j < sorted.len(),
        processes_of(sorted)[j].has_audio_session,
    ensures
        processes_of(sorted)[i].has_audio_session,
        processes_of(sorted)[i].audio_session_count >= processes_of(sorted)[j].audio_session_count,
{
    let order = choose|order: Seq<int>| crate::ordering::sorted_along(sorted, keyed, order);
    assert(sorted[i].ranks_before(&sorted[j]));
}

/// Sessions are counted one by one: each session of a program adds one to its count, and none to that
/// of another.
pub proof fn law_each_session_counts_once(left: Seq<u32>, right: Seq<u32>, pid: u32, other: u32)
    ensures
        session_count(left + right, pid) == session_count(left, pid) + session_count(right, pid),
        pid > 0 ==> session_count(left.push(pid), pid) == session_count(left, pid) + 1,
        pid != other ==> session_count(left.push(pid), other) == session_count(left, other),
        session_count(left, 0) == 0,
        session_count(Seq::empty(), pid) == 0,
    decreases left.len() + right.len(),
{
    assert(left.push(pid).drop_last() =~= left);
    if left.len() > 0 {
        law_each_session_counts_once(left.drop_last(), Seq::empty(), pid, other);
    }
    if right.len() == 0 {
        assert(left + right =~= left);
    } else {
        law_each_session_counts_once(left, right.drop_last(), pid, other);
        assert((left + right).drop_last() =~= left + right.drop_last());
        assert((left + right).last() == right.last());
    }
}

/// Counting the sessions of a program changes nothing else that is known of it.
pub proof fn law_counting_keeps_the_program(process: AudioProcessTarget, sessions: Seq<u32>)
    requires
        sessions.len() <= u32::MAX,
    ensures
        annotated(process, sessions).pid == process.pid,
        annotated(process, sessions).name == process.name,
        annotated(process, sessions).window_title == process.window_title,
        annotated(process, sessions).executable_path == process.executable_path,
        annotated(process, sessions).command_line == process.command_line,
        annotated(process, sessions).session_id == process.session_id,
        annotated(process, sessions).audio_session_count == session_count(sessions, process.pid),
        annotated(process, sessions).has_audio_session <==> process.pid > 0 && sessions.contains(process.pid),
{
    lemma_sessions_are_counted(sessions, process.pid);
}

/// A program has a session exactly when it occurs among the sessions.
proof fn lemma_sessions_are_counted(sessions: Seq<u32>, pid: u32)
    ensures
        session_count(sessions, pid) <= sessions.len(),
        session_count(sessions, pid) > 0 <==> pid > 0 && sessions.contains(pid),
    decreases sessions.len(),
{
    if sessions.len() > 0 {
        let rest = sessions.drop_last();
        lemma_sessions_are_counted(rest, pid);
        if rest.contains(pid) {
            let i = choose|i: int| 0 <= i < rest.len() && rest[i] == pid;
            assert(sessions[i] == pid);
        }
        if sessions.contains(pid) && sessions.last() != pid {
            let i = choose|i: int| 0 <= i < sessions.len() && sessions[i] == pid;
            assert(rest[i] == pid);
        }
        if sessions.last() == pid {
            assert(sessions[sessions.len() - 1] == pid);
        }
    }
}

/// Every program with a number and a name is listed, as often as it was given and in the place that it
/// had among the others; no other is.
pub proof fn law_programs_with_a_name_are_listed(
    before: Seq<AudioProcessTarget>,
    process: AudioProcessTarget,
    after: Seq<AudioProcessTarget>,
    sessions: Seq<u32>,
)
    ensures
        process.pid > 0 && !is_blank(process.name@) ==> listed_processes(before + seq![process] + after, sessions)
            == listed_processes(before, sessions) + seq![annotated(process, sessions)] + listed_processes(
            after,
            sessions,
        ),
        process.pid == 0 || is_blank(process.name@) ==> listed_processes(before + seq![process] + after, sessions)
            == listed_processes(before, sessions) + listed_processes(after, sessions),
{
    let count = |process: AudioProcessTarget| annotated(process, sessions);
    let keep = |process: AudioProcessTarget| is_listed(process);
    let one = seq![process].map_values(count);
    assert((before + seq![process] + after).map_values(count) =~= before.map_values(count) + one + after.map_values(
        count,
    ));
    Seq::filter_distributes_over_add(before.map_values(count) + one, after.map_values(count), keep);
    Seq::filter_distributes_over_add(before.map_values(count), one, keep);
    reveal(Seq::filter);
    assert(one.drop_last() =~= Seq::<AudioProcessTarget>::empty());
    assert(one.last() == annotated(process, sessions));
    reveal_with_fuel(Seq::filter, 2);
    if is_listed(annotated(process, sessions)) {
        assert(one.filter(keep) =~= seq![annotated(process, sessions)]);
    } else {
        assert(one.filter(keep) =~= Seq::<AudioProcessTarget>::empty());
        assert(listed_processes(before, sessions) + Seq::<AudioProcessTarget>::empty() =~= listed_processes(
            before,
            sessions,
        ));
    }
}

/// Of programs that are equally loud the names decide, in lower case, and of equal names the numbers.
pub proof fn law_names_decide_between_equals(
    keyed: Seq<KeyedProcess>,
    sorted: Seq<KeyedProcess>,
    i: int,
    j: int,
)
    requires
        is_sorting_of(sorted, keyed),
        keys_fit(keyed),
        0 <= i < j < sorted.len(),
        sorted[i].process.has_audio_session == sorted[j].process.has_audio_session,
        sorted[i].process.audio_session_count == sorted[j].process.audio_session_count,
    ensures
        text_le(lowercase(sorted[i].process.name@), lowercase(sorted[j].process.name@)),
        lowercase(sorted[i].process.name@) == lowercase(sorted[j].process.name@) ==> sorted[i].process.pid
            <= sorted[j].process.pid,
{
    let order = choose|order: Seq<int>| crate::ordering::sorted_along(sorted, keyed, order);
    assert(sorted[i].ranks_before(&sorted[j]));
    assert(sorted[i] == keyed[order[i]]);
    assert(sorted[j] == keyed[order[j]]);
    if sorted[i].key@ == sorted[j].key@ {
        crate::ordering::lemma_text_le_total(sorted[i].key@, sorted[j].key@);
    }
}

/// A listing that was made and is not blank is handed on, trimmed; one that failed tells why.
pub proof fn law_listings_are_handed_on(output: ListingOutput, text: Result<Option<String>, String>)
    requires
        call_ensures(listing_text, (Ok::<ListingOutput, String>(output),), text),
    ensures
        text is Ok <==> output.success,
        text is Ok ==> (text->Ok_0 is Some <==> !is_blank(output.stdout@)),
        text is Ok && text->Ok_0 is Some ==> (text->Ok_0)->0@ == trim(output.stdout@),
        text is Err ==> text->Err_0@ == trim(output.stderr@),
{
}

/// A program that could be read is among those that were read, whatever else the listing holds.
pub proof fn law_readable_programs_are_read(
    items: Vec<Option<AudioProcessTarget>>,
    before: Seq<Option<AudioProcessTarget>>,
    process: AudioProcessTarget,
    after: Seq<Option<AudioProcessTarget>>,
    read: Result<Vec<AudioProcessTarget>, String>,
)
    requires
        items@ == before + seq![Some(process)] + after,
        call_ensures(processes_read, (Some(Ok::<Listing, String>(Listing::Items(items))),), read),
    ensures
        read is Ok,
        read->Ok_0@ == present(before) + seq![process] + present(after),
{
    crate::ordering::law_what_is_there_is_kept(before + seq![Some(process)], after, process);
    crate::ordering::law_what_is_there_is_kept(before, seq![Some(process)], process);
}

} // verus!
