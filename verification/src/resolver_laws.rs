//! What holds of every resolution, whatever comes of its actions.

use vstd::prelude::*;
use vstd::utf8::is_ascii_chars;

use crate::checksum::{checksum, law_hex_tells_bytes_apart, sha256};
use crate::path::join_path;
use crate::pin::checksum_of;
use crate::release::{
    law_release_is_what_is_pinned, pinned_release, platform_arch, Architecture, Os, Release,
};
use crate::resolver::{
    check_step, checked_step, download_step, expected, finish, first_step, mismatch_error,
    next_step, release_step, remembered, step_of, Action, Event, Request, Resolution, Step,
};
use crate::text::{ascii_lower, ascii_lower_char, same_ignoring_case};

verus! {

/// What came of an action, as the specifications see it.
pub type Happening = Event<Seq<char>, Seq<u8>>;

/// Where a resolution stands after the events.
pub open spec fn after(start: Step, events: Seq<Happening>) -> Step
    decreases events.len(),
{
    if events.len() == 0 {
        start
    } else {
        next_step(after(start, events.drop_last()).0, events.last())
    }
}

/// Whether each event is what comes of the action that was stated before it.
pub open spec fn possible(start: Step, events: Seq<Happening>) -> bool
    decreases events.len(),
{
    events.len() > 0 ==> possible(start, events.drop_last()) && expected(
        after(start, events.drop_last()).0,
        events.last(),
    )
}

/// Whether the event is what comes of the action.
pub open spec fn answers(action: Action<Seq<char>>, event: Happening) -> bool {
    match action {
        Action::IsFile(_) => event is IsFile,
        Action::Which(_) => event is Which,
        Action::CreateDirectory(_) => event is DirectoryCreated,
        Action::Download { .. } => event is Downloaded,
        Action::Read(_) => event is Read,
        Action::Remove(_) => event is Removed,
        Action::MakeExecutable(_) => event is MadeExecutable,
        Action::Finish(_) => false,
    }
}

/// Whether a resolution waits for just what comes of its action.
pub open spec fn consistent(step: Step) -> bool {
    forall|event: Happening| #[trigger] expected(step.0, event) == answers(step.1, event)
}

/// Who performs the action that a resolution states can always go on with what came of
/// it, until the action is to finish.
pub proof fn law_every_action_is_answered(
    cached: Option<Seq<char>>,
    request: Request<Seq<char>>,
    events: Seq<Happening>,
)
    requires
        possible(first_step(cached, request), events),
    ensures
        consistent(after(first_step(cached, request), events)),
    decreases events.len(),
{
    if events.len() > 0 {
        law_every_action_is_answered(cached, request, events.drop_last());
    }
}

/// How many events a resolution can still take.
pub open spec fn steps_left(resolution: Resolution<Seq<char>>) -> nat {
    match resolution {
        Resolution::Cached { .. } => 12,
        Resolution::OnPath { .. } => 11,
        Resolution::Configured { .. } => 10,
        Resolution::Installed { .. } => 9,
        Resolution::MakingDirectory { retry, .. } => if retry {
            4
        } else {
            8
        },
        Resolution::Downloading { retry, .. } => if retry {
            3
        } else {
            7
        },
        Resolution::Checking { retry, .. } => if retry {
            2
        } else {
            6
        },
        Resolution::Replacing { .. } => 5,
        Resolution::Rejecting { .. } => 1,
        Resolution::Enabling { .. } => 1,
        Resolution::Finished => 0,
    }
}

/// A resolution comes to an end: it takes twelve events at most.
pub proof fn law_resolution_ends(
    cached: Option<Seq<char>>,
    request: Request<Seq<char>>,
    events: Seq<Happening>,
)
    requires
        possible(first_step(cached, request), events),
    ensures
        events.len() + steps_left(after(first_step(cached, request), events).0) <= 12,
    decreases events.len(),
{
    if events.len() > 0 {
        law_resolution_ends(cached, request, events.drop_last());
    }
}

/// Whether the bytes have the checksum that is stated for the release.
pub open spec fn verified(release: Release<Seq<char>>, bytes: Seq<u8>) -> bool {
    same_ignoring_case(checksum(bytes), release.expected_sha)
}

/// Where a path that a resolution finishes with comes from: it is the binary found last
/// time, or the one on the `PATH`, or the configured one, found to be a file; or it is the
/// binary of the pinned release, whose bytes were read just before it was made executable
/// and had the stated checksum.
pub open spec fn justified(
    cached: Option<Seq<char>>,
    request: Request<Seq<char>>,
    events: Seq<Happening>,
    path: Seq<char>,
) -> bool {
    ||| cached == Some(path) && events.last() == Happening::IsFile(true)
    ||| events.last() == Happening::Which(Some(path))
    ||| {
        &&& request.configured_path matches Some(raw)
        &&& path == join_path(request.root_path, raw)
        &&& events.last() == Happening::IsFile(true)
    }
    ||| {
        &&& pinned_release(request.pin_toml, request.os, request.arch) matches Ok(release)
        &&& path == release.binary_path
        &&& events.len() >= 2
        &&& events.last() matches Event::MadeExecutable(Ok(_))
        &&& events[events.len() - 2] matches Event::Read(Ok(bytes))
        &&& verified(release, bytes)
    }
}

/// What holds of a resolution all along.
spec fn sound(
    cached: Option<Seq<char>>,
    request: Request<Seq<char>>,
    events: Seq<Happening>,
    step: Step,
) -> bool {
    let pinned = pinned_release(request.pin_toml, request.os, request.arch);
    match step.0 {
        Resolution::Cached { path, request: own } => own == request && cached == Some(path),
        Resolution::OnPath { request: own } => own == request,
        Resolution::Configured { path, request: own } => {
            &&& own == request
            &&& request.configured_path matches Some(raw)
            &&& path == join_path(request.root_path, raw)
        },
        Resolution::Installed { release, .. } => pinned == Ok::<_, Seq<char>>(release),
        Resolution::MakingDirectory { release, .. } => pinned == Ok::<_, Seq<char>>(release),
        Resolution::Downloading { release, .. } => pinned == Ok::<_, Seq<char>>(release),
        Resolution::Checking { release, .. } => pinned == Ok::<_, Seq<char>>(release),
        Resolution::Replacing { release, .. } => pinned == Ok::<_, Seq<char>>(release),
        Resolution::Rejecting { .. } => true,
        Resolution::Enabling { release } => {
            &&& pinned == Ok::<_, Seq<char>>(release)
            &&& events.len() > 0
            &&& events.last() matches Event::Read(Ok(bytes))
            &&& verified(release, bytes)
        },
        Resolution::Finished => step.1 matches Action::Finish(Ok(path)) ==> justified(
            cached,
            request,
            events,
            path,
        ),
    }
}

/// A resolution is sound all along.
proof fn lemma_sound(
    cached: Option<Seq<char>>,
    request: Request<Seq<char>>,
    events: Seq<Happening>,
)
    requires
        possible(first_step(cached, request), events),
    ensures
        sound(cached, request, events, after(first_step(cached, request), events)),
    decreases events.len(),
{
    if events.len() > 0 {
        let before = events.drop_last();
        lemma_sound(cached, request, before);
        if before.len() > 0 {
            assert(events[events.len() - 2] == before.last());
        }
    }
}

/// A downloaded binary is used only once its checksum was found to be the stated one: a
/// path that a resolution finishes with is either one that was there without it, or that
/// of the pinned release, just read and found to have the checksum in the pin file.
pub proof fn law_only_verified_releases_are_used(
    cached: Option<Seq<char>>,
    request: Request<Seq<char>>,
    events: Seq<Happening>,
    path: Seq<char>,
)
    requires
        possible(first_step(cached, request), events),
        after(first_step(cached, request), events).1 == Action::<Seq<char>>::Finish(Ok(path)),
    ensures
        justified(cached, request, events, path),
{
    lemma_sound(cached, request, events);
    lemma_finished(cached, request, events);
}

/// Only a resolution that is finished states so.
proof fn lemma_finished(
    cached: Option<Seq<char>>,
    request: Request<Seq<char>>,
    events: Seq<Happening>,
)
    requires
        possible(first_step(cached, request), events),
    ensures
        after(first_step(cached, request), events).1 is Finish <==> after(
            first_step(cached, request),
            events,
        ).0 is Finished,
{
}

/// No binary is made executable but one that was just read and had the stated checksum.
pub proof fn law_only_verified_binaries_are_enabled(
    cached: Option<Seq<char>>,
    request: Request<Seq<char>>,
    events: Seq<Happening>,
    path: Seq<char>,
)
    requires
        possible(first_step(cached, request), events),
        after(first_step(cached, request), events).1 == Action::<Seq<char>>::MakeExecutable(path),
    ensures
        events.len() > 0,
        pinned_release(request.pin_toml, request.os, request.arch) matches Ok(release)
            && release.binary_path == path && (events.last() matches Event::Read(Ok(bytes))
            && verified(release, bytes)),
{
    lemma_sound(cached, request, events);
}

/// How many downloads a resolution has asked for.
pub open spec fn downloads(start: Step, events: Seq<Happening>) -> nat
    decreases events.len(),
{
    let now: nat = if after(start, events).1 is Download {
        1
    } else {
        0
    };
    if events.len() == 0 {
        now
    } else {
        downloads(start, events.drop_last()) + now
    }
}

/// A binary is downloaded twice at most, and a second time only after one with another
/// checksum was removed.
pub proof fn law_one_retry(
    cached: Option<Seq<char>>,
    request: Request<Seq<char>>,
    events: Seq<Happening>,
)
    requires
        possible(first_step(cached, request), events),
    ensures
        downloads(first_step(cached, request), events) <= 2,
        downloads(first_step(cached, request), events) == 2 ==> exists|i: int|
            0 <= i < events.len() && #[trigger] after(
                first_step(cached, request),
                events.take(i),
            ).0 is Replacing,
{
    lemma_downloads(cached, request, events);
}

/// How many downloads there were in each state, and that a retry follows a removal.
proof fn lemma_downloads(
    cached: Option<Seq<char>>,
    request: Request<Seq<char>>,
    events: Seq<Happening>,
)
    requires
        possible(first_step(cached, request), events),
    ensures
        ({
            let start = first_step(cached, request);
            let n = downloads(start, events);
            let replaced = exists|i: int|
                0 <= i < events.len() && #[trigger] after(start, events.take(i)).0 is Replacing;
            match after(start, events).0 {
                Resolution::Cached { .. } => n == 0,
                Resolution::OnPath { .. } => n == 0,
                Resolution::Configured { .. } => n == 0,
                Resolution::Installed { .. } => n == 0,
                Resolution::MakingDirectory { retry, .. } => if retry {
                    n <= 1 && replaced
                } else {
                    n == 0
                },
                Resolution::Downloading { retry, .. } => if retry {
                    n <= 2 && replaced
                } else {
                    n == 1
                },
                Resolution::Checking { retry, .. } => if retry {
                    n <= 2 && replaced
                } else {
                    n <= 1
                },
                Resolution::Replacing { .. } => n <= 1,
                _ => n <= 1 || (n == 2 && replaced),
            }
        }),
    decreases events.len(),
{
    let start = first_step(cached, request);
    if events.len() > 0 {
        let before = events.drop_last();
        lemma_downloads(cached, request, before);
        assert(events.take(events.len() - 1) =~= before);
        assert forall|i: int|
            0 <= i < before.len() && #[trigger] after(start, before.take(i)).0 is Replacing implies
            after(start, events.take(i)).0 is Replacing by {
            assert(events.take(i) =~= before.take(i));
        }
        if exists|i: int|
            0 <= i < before.len() && #[trigger] after(start, before.take(i)).0 is Replacing {
            let i = choose|i: int|
                0 <= i < before.len() && #[trigger] after(start, before.take(i)).0 is Replacing;
            assert(after(start, events.take(i)).0 is Replacing);
        }
        if after(start, before).0 is Replacing {
            assert(after(start, events.take(events.len() - 1)).0 is Replacing);
        }
    }
}

/// The order of precedence. The binary found last time comes first, if it is still a
/// file; then the one on the `PATH`, whatever path is configured; then the configured one,
/// if it is a file; the pinned release comes last, and needs no more than that the others
/// are missing. Where the binary found last time is gone, it is as if none had been found.
pub proof fn law_precedence(
    cached: Seq<char>,
    request: Request<Seq<char>>,
    found: Seq<char>,
    raw: Seq<char>,
)
    ensures
        after(first_step(Some(cached), request), seq![Event::IsFile(true)]) == finish(Ok(cached)),
        after(first_step(Some(cached), request), seq![Event::IsFile(false)]) == first_step(
            None,
            request,
        ),
        after(first_step(None, request), seq![Event::Which(Some(found))]) == finish(Ok(found)),
        request.configured_path == Some(raw) ==> after(
            first_step(None, request),
            seq![Event::Which(None), Event::IsFile(true)],
        ) == finish(Ok(join_path(request.root_path, raw))),
        request.configured_path == Some(raw) ==> after(
            first_step(None, request),
            seq![Event::Which(None), Event::IsFile(false)],
        ) == release_step(request, true),
        request.configured_path is None ==> after(
            first_step(None, request),
            seq![Event::Which(None)],
        ) == release_step(request, false),
{
    let none = Seq::<Happening>::empty();
    let kept: Seq<Happening> = seq![Event::IsFile(true)];
    let gone: Seq<Happening> = seq![Event::IsFile(false)];
    let on_path: Seq<Happening> = seq![Event::Which(Some(found))];
    let not_on_path: Seq<Happening> = seq![Event::Which(None)];
    let then_kept: Seq<Happening> = seq![Event::Which(None), Event::IsFile(true)];
    let then_gone: Seq<Happening> = seq![Event::Which(None), Event::IsFile(false)];
    reveal_with_fuel(after, 3);
    assert(kept.drop_last() =~= none);
    assert(gone.drop_last() =~= none);
    assert(on_path.drop_last() =~= none);
    assert(not_on_path.drop_last() =~= none);
    assert(then_kept.drop_last() =~= not_on_path);
    assert(then_gone.drop_last() =~= not_on_path);
}

/// A binary whose checksum is not the stated one is removed at once. The first time it is
/// downloaded again; the second time the resolution ends with an error that tells both
/// checksums.
pub proof fn law_refused_binaries_are_removed(
    release: Release<Seq<char>>,
    configured_missing: bool,
    retry: bool,
    bytes: Seq<u8>,
)
    requires
        !verified(release, bytes),
    ensures
        ({
            let step = next_step(
                Resolution::Checking { release, configured_missing, retry },
                Event::Read(Ok(bytes)),
            );
            &&& step.1 == Action::<Seq<char>>::Remove(release.binary_path)
            &&& next_step(step.0, Event::Removed) == if retry {
                finish(Err(mismatch_error(release, checksum(bytes))))
            } else {
                download_step(release, configured_missing, true)
            }
        }),
{
}

/// One event more is one step more.
proof fn lemma_after_push(start: Step, events: Seq<Happening>, event: Happening)
    ensures
        after(start, events.push(event)) == next_step(after(start, events).0, event),
{
    assert(events.push(event).drop_last() =~= events);
}

/// The binary of the pinned release is used once it has the stated checksum: whether it is
/// there already, is downloaded, or takes the place of one with another checksum.
pub proof fn law_verified_releases_are_used(
    request: Request<Seq<char>>,
    configured_missing: bool,
    release: Release<Seq<char>>,
    bytes: Seq<u8>,
    stale: Seq<u8>,
)
    requires
        pinned_release(request.pin_toml, request.os, request.arch) == Ok::<_, Seq<char>>(release),
        verified(release, bytes),
    ensures
        after(
            release_step(request, configured_missing),
            seq![Event::IsFile(true), Event::Read(Ok(bytes)), Event::MadeExecutable(Ok(()))],
        ) == finish(Ok(release.binary_path)),
        after(
            release_step(request, configured_missing),
            seq![
                Event::IsFile(false),
                Event::DirectoryCreated,
                Event::Downloaded(Ok(())),
                Event::Read(Ok(bytes)),
                Event::MadeExecutable(Ok(())),
            ],
        ) == finish(Ok(release.binary_path)),
        !verified(release, stale) ==> after(
            release_step(request, configured_missing),
            seq![
                Event::IsFile(true),
                Event::Read(Ok(stale)),
                Event::Removed,
                Event::DirectoryCreated,
                Event::Downloaded(Ok(())),
                Event::Read(Ok(bytes)),
                Event::MadeExecutable(Ok(())),
            ],
        ) == finish(Ok(release.binary_path)),
{
    let start = release_step(request, configured_missing);
    let none = Seq::<Happening>::empty();
    let there: Seq<Happening> = none.push(Event::IsFile(true));
    let missing: Seq<Happening> = none.push(Event::IsFile(false));
    lemma_after_push(start, none, Event::IsFile(true));
    lemma_after_push(start, none, Event::IsFile(false));
    lemma_used(start, release, configured_missing, false, bytes, there);
    assert(there.push(Event::Read(Ok(bytes))).push(Event::MadeExecutable(Ok(()))) =~= seq![
        Event::IsFile(true),
        Event::Read(Ok(bytes)),
        Event::MadeExecutable(Ok(())),
    ]);
    lemma_downloaded(start, release, configured_missing, false, missing);
    let fetched = missing.push(Event::DirectoryCreated).push(Event::Downloaded(Ok(())));
    lemma_used(start, release, configured_missing, false, bytes, fetched);
    assert(fetched.push(Event::Read(Ok(bytes))).push(Event::MadeExecutable(Ok(()))) =~= seq![
        Event::IsFile(false),
        Event::DirectoryCreated,
        Event::Downloaded(Ok(())),
        Event::Read(Ok(bytes)),
        Event::MadeExecutable(Ok(())),
    ]);
    if !verified(release, stale) {
        lemma_after_push(start, there, Event::Read(Ok(stale)));
        let refused = there.push(Event::Read(Ok(stale)));
        lemma_after_push(start, refused, Event::Removed);
        let removed = refused.push(Event::Removed);
        lemma_downloaded(start, release, configured_missing, true, removed);
        let again = removed.push(Event::DirectoryCreated).push(Event::Downloaded(Ok(())));
        lemma_used(start, release, configured_missing, true, bytes, again);
        assert(again.push(Event::Read(Ok(bytes))).push(Event::MadeExecutable(Ok(()))) =~= seq![
            Event::IsFile(true),
            Event::Read(Ok(stale)),
            Event::Removed,
            Event::DirectoryCreated,
            Event::Downloaded(Ok(())),
            Event::Read(Ok(bytes)),
            Event::MadeExecutable(Ok(())),
        ]);
    }
}

/// A download that succeeds leads to the check of the binary.
proof fn lemma_downloaded(
    start: Step,
    release: Release<Seq<char>>,
    configured_missing: bool,
    retry: bool,
    events: Seq<Happening>,
)
    requires
        after(start, events) == download_step(release, configured_missing, retry),
    ensures
        after(start, events.push(Event::DirectoryCreated).push(Event::Downloaded(Ok(()))))
            == check_step(release, configured_missing, retry),
{
    lemma_after_push(start, events, Event::DirectoryCreated);
    lemma_after_push(start, events.push(Event::DirectoryCreated), Event::Downloaded(Ok(())));
}

/// A binary with the stated checksum is made executable and used.
proof fn lemma_used(
    start: Step,
    release: Release<Seq<char>>,
    configured_missing: bool,
    retry: bool,
    bytes: Seq<u8>,
    events: Seq<Happening>,
)
    requires
        after(start, events) == check_step(release, configured_missing, retry),
        verified(release, bytes),
    ensures
        after(start, events.push(Event::Read(Ok(bytes))).push(Event::MadeExecutable(Ok(()))))
            == finish(Ok(release.binary_path)),
{
    lemma_after_push(start, events, Event::Read(Ok(bytes)));
    lemma_after_push(
        start,
        events.push(Event::Read(Ok(bytes))),
        Event::MadeExecutable(Ok(())),
    );
}

/// All binaries that are accepted for a release have one and the same SHA-256 digest.
pub proof fn law_verified_binaries_share_a_digest(
    release: Release<Seq<char>>,
    a: Seq<u8>,
    b: Seq<u8>,
)
    requires
        verified(release, a),
        verified(release, b),
    ensures
        sha256(a) == sha256(b),
{
    law_hex_tells_bytes_apart(sha256(a), sha256(b));
}

/// Lower case is left as it is.
proof fn lemma_ascii_lower_twice(s: Seq<char>)
    ensures
        ascii_lower(ascii_lower(s)) == ascii_lower(s),
{
    assert(ascii_lower(ascii_lower(s)) =~= ascii_lower(s)) by {
        assert forall|i: int| 0 <= i < s.len() implies ascii_lower(ascii_lower(s))[i]
            == #[trigger] ascii_lower(s)[i] by {
            assert(ascii_lower_char(ascii_lower_char(s[i])) == ascii_lower_char(s[i]));
        }
    }
}

/// A binary has the right checksum exactly if its SHA-256 checksum is the one that is
/// written in the pin file. The letter case does not count, neither there nor here.
pub proof fn law_checksum_is_the_pinned_one(
    pin: Seq<char>,
    os: Os,
    arch: Architecture,
    release: Release<Seq<char>>,
    stated: Seq<char>,
    bytes: Seq<u8>,
)
    requires
        pinned_release(pin, os, arch) == Ok::<_, Seq<char>>(release),
        checksum_of(pin, release.platform_arch) == Some(stated),
        is_ascii_chars(stated),
    ensures
        verified(release, bytes) <==> same_ignoring_case(checksum(bytes), stated),
{
    law_release_is_what_is_pinned(pin, os, arch);
    lemma_ascii_lower_twice(stated);
}

/// A binary that was read is made executable exactly if its checksum is the one that is
/// written in the pin file, but for the letter case.
pub proof fn law_checksum_case_does_not_count(
    pin: Seq<char>,
    os: Os,
    arch: Architecture,
    release: Release<Seq<char>>,
    configured_missing: bool,
    retry: bool,
    stated: Seq<char>,
    bytes: Seq<u8>,
)
    requires
        pinned_release(pin, os, arch) == Ok::<_, Seq<char>>(release),
        checksum_of(pin, release.platform_arch) == Some(stated),
        is_ascii_chars(stated),
    ensures
        next_step(
            Resolution::Checking { release, configured_missing, retry },
            Event::Read(Ok(bytes)),
        ).1 is MakeExecutable <==> same_ignoring_case(checksum(bytes), stated),
{
    law_checksum_is_the_pinned_one(pin, os, arch, release, stated, bytes);
}

/// Whatever came of its actions before, a resolution makes a binary executable only if that
/// was just read and its checksum is the one that is written in the pin file for the
/// platform.
pub proof fn law_enabled_binaries_have_the_pinned_checksum(
    cached: Option<Seq<char>>,
    request: Request<Seq<char>>,
    events: Seq<Happening>,
    path: Seq<char>,
    name: Seq<char>,
    stated: Seq<char>,
)
    requires
        possible(first_step(cached, request), events),
        after(first_step(cached, request), events).1 == Action::<Seq<char>>::MakeExecutable(path),
        platform_arch(request.os, request.arch) == Some(name),
        checksum_of(request.pin_toml, name) == Some(stated),
        is_ascii_chars(stated),
    ensures
        events.len() > 0,
        events.last() matches Event::Read(Ok(bytes)) && same_ignoring_case(
            checksum(bytes),
            stated,
        ),
{
    law_only_verified_binaries_are_enabled(cached, request, events, path);
    law_release_is_what_is_pinned(request.pin_toml, request.os, request.arch);
    let release = pinned_release(request.pin_toml, request.os, request.arch)->Ok_0;
    law_checksum_is_the_pinned_one(
        request.pin_toml,
        request.os,
        request.arch,
        release,
        stated,
        events.last()->Read_0->Ok_0,
    );
}

/// What a resolution started from, and what came of its actions.
pub ghost struct Run {
    /// What the resolution started from.
    pub request: Request<Seq<char>>,
    /// What came of its actions, in order.
    pub events: Seq<Happening>,
}

/// The path that is remembered after resolutions, one after the other, from an extension
/// that remembers none.
pub open spec fn remembered_after(runs: Seq<Run>) -> Option<Seq<char>>
    decreases runs.len(),
{
    if runs.len() == 0 {
        None
    } else {
        let cached = remembered_after(runs.drop_last());
        let last = runs.last();
        remembered(cached, after(first_step(cached, last.request), last.events))
    }
}

/// Whether each of the resolutions is possible where it stands.
pub open spec fn possible_session(runs: Seq<Run>) -> bool
    decreases runs.len(),
{
    runs.len() > 0 ==> {
        &&& possible_session(runs.drop_last())
        &&& possible(
            first_step(remembered_after(runs.drop_last()), runs.last().request),
            runs.last().events,
        )
    }
}

/// A path that is remembered was found by one of the resolutions on its own account: on
/// the `PATH`, as the configured file, or as the pinned release with the stated checksum.
pub proof fn law_remembered_paths_were_found(runs: Seq<Run>, path: Seq<char>)
    requires
        possible_session(runs),
        remembered_after(runs) == Some(path),
    ensures
        exists|k: int|
            0 <= k < runs.len() && justified(
                None,
                (#[trigger] runs[k]).request,
                runs[k].events,
                path,
            ),
    decreases runs.len(),
{
    let earlier = runs.drop_last();
    let last = runs.last();
    let cached = remembered_after(earlier);
    let step = after(first_step(cached, last.request), last.events);
    let n = runs.len() - 1;
    assert(runs[n] == last);
    if step.1 == Action::<Seq<char>>::Finish(Ok(path)) {
        law_only_verified_releases_are_used(cached, last.request, last.events, path);
        if !justified(None, last.request, last.events, path) {
            assert(cached == Some(path));
        }
    }
    if !justified(None, last.request, last.events, path) {
        law_remembered_paths_were_found(earlier, path);
        let k = choose|k: int|
            0 <= k < earlier.len() && justified(
                None,
                (#[trigger] earlier[k]).request,
                earlier[k].events,
                path,
            );
        assert(runs[k] == earlier[k]);
    }
}

/// What is asked for first: whether the binary found last time is still a file, or, where
/// none was found or it is gone, where `tusk-php` is on the `PATH`. One that is still a file,
/// or is on the `PATH`, is the result.
pub proof fn law_first_actions(path: Seq<char>, request: Request<Seq<char>>)
    ensures
        first_step(Some(path), request).1 == Action::<Seq<char>>::IsFile(path),
        first_step(None, request).1 == Action::<Seq<char>>::Which("tusk-php"@),
        next_step(first_step(Some(path), request).0, Event::IsFile(true)).1 == Action::<
            Seq<char>,
        >::Finish(Ok(path)),
        next_step(first_step(Some(path), request).0, Event::IsFile(false)) == first_step(
            None,
            request,
        ),
        next_step(first_step(None, request).0, Event::Which(Some(path))).1 == Action::<
            Seq<char>,
        >::Finish(Ok(path)),
{
}

/// What is asked for where nothing is on the `PATH`: whether the configured binary, seen from
/// the root of the worktree, is a file; and, where none is configured or it is missing,
/// whether the binary of the pinned release is there. Without a pinned release the
/// resolution ends with the reason.
pub proof fn law_later_actions(request: Request<Seq<char>>)
    ensures
        ({
            let waiting = first_step(None, request).0;
            let next = next_step(waiting, Event::Which(None));
            let last = match request.configured_path {
                Some(raw) => next_step(next.0, Event::IsFile(false)),
                None => next,
            };
            &&& request.configured_path matches Some(raw) ==> {
                &&& next.1 == Action::<Seq<char>>::IsFile(join_path(request.root_path, raw))
                &&& next_step(next.0, Event::IsFile(true)).1 == Action::<Seq<char>>::Finish(
                    Ok(join_path(request.root_path, raw)),
                )
            }
            &&& match pinned_release(request.pin_toml, request.os, request.arch) {
                Ok(release) => {
                    &&& last.1 == Action::<Seq<char>>::IsFile(release.binary_path)
                    &&& last.0 == Resolution::Installed {
                        release,
                        configured_missing: request.configured_path is Some,
                    }
                },
                Err(message) => last.1 == Action::<Seq<char>>::Finish(Err(message)),
            }
        }),
{
}

/// How a release is fetched: a binary that is there is read; for one that is missing the
/// directory is made, the file is downloaded from the address of the release to its place,
/// and then read.
pub proof fn law_release_is_fetched(
    release: Release<Seq<char>>,
    configured_missing: bool,
    retry: bool,
)
    ensures
        ({
            let there = next_step(
                Resolution::Installed { release, configured_missing },
                Event::IsFile(true),
            );
            let missing = next_step(
                Resolution::Installed { release, configured_missing },
                Event::IsFile(false),
            );
            let removed = next_step(
                Resolution::Replacing { release, configured_missing },
                Event::Removed,
            );
            let made = next_step(
                Resolution::MakingDirectory { release, configured_missing, retry },
                Event::DirectoryCreated,
            );
            let fetched = next_step(
                Resolution::Downloading { release, configured_missing, retry },
                Event::Downloaded(Ok(())),
            );
            &&& there.1 == Action::<Seq<char>>::Read(release.binary_path)
            &&& there.0 == Resolution::Checking { release, configured_missing, retry: false }
            &&& missing.1 == Action::<Seq<char>>::CreateDirectory(release.directory)
            &&& missing.0 == Resolution::MakingDirectory {
                release,
                configured_missing,
                retry: false,
            }
            &&& removed.1 == Action::<Seq<char>>::CreateDirectory(release.directory)
            &&& removed.0 == Resolution::MakingDirectory {
                release,
                configured_missing,
                retry: true,
            }
            &&& made.1 == Action::<Seq<char>>::Download {
                url: release.url,
                path: release.binary_path,
            }
            &&& made.0 == Resolution::Downloading { release, configured_missing, retry }
            &&& fetched.1 == Action::<Seq<char>>::Read(release.binary_path)
            &&& fetched.0 == Resolution::Checking { release, configured_missing, retry }
        }),
{
}

/// What a binary that was read leads to: with the stated checksum it is made executable, and
/// its path is the result once that succeeded. With another one it is removed; the second
/// time the resolution ends with a message that names the version, the platform and both
/// checksums.
pub proof fn law_read_binary_is_judged(
    release: Release<Seq<char>>,
    configured_missing: bool,
    retry: bool,
    bytes: Seq<u8>,
    error: Seq<char>,
)
    ensures
        ({
            let judged = next_step(
                Resolution::Checking { release, configured_missing, retry },
                Event::Read(Ok(bytes)),
            );
            &&& verified(release, bytes) ==> {
                &&& judged.1 == Action::<Seq<char>>::MakeExecutable(release.binary_path)
                &&& next_step(judged.0, Event::MadeExecutable(Ok(()))).1 == Action::<
                    Seq<char>,
                >::Finish(Ok(release.binary_path))
                &&& next_step(judged.0, Event::MadeExecutable(Err(error))).1 == Action::<
                    Seq<char>,
                >::Finish(Err(error))
            }
            &&& !verified(release, bytes) ==> judged.1 == Action::<Seq<char>>::Remove(
                release.binary_path,
            )
            &&& !verified(release, bytes) && !retry ==> judged.0 == Resolution::Replacing {
                release,
                configured_missing,
            }
            &&& !verified(release, bytes) && retry ==> next_step(judged.0, Event::Removed).1
                == Action::<Seq<char>>::Finish(
                Err(
                    "checksum mismatch for downloaded tusk-php "@ + release.version + " ("@
                        + release.platform_arch + "): expected "@ + release.expected_sha
                        + ", got "@ + checksum(bytes),
                ),
            )
        }),
{
}

/// What any checksum leads to: the stated one, but for the letter case, has the binary made
/// executable, and another one has it removed, for good the second time.
pub proof fn law_checksum_decides(
    release: Release<Seq<char>>,
    configured_missing: bool,
    retry: bool,
    actual: Seq<char>,
)
    ensures
        ({
            let step = checked_step(release, configured_missing, retry, actual);
            if same_ignoring_case(actual, release.expected_sha) {
                &&& step.1 == Action::<Seq<char>>::MakeExecutable(release.binary_path)
                &&& step.0 == Resolution::Enabling { release }
            } else {
                &&& step.1 == Action::<Seq<char>>::Remove(release.binary_path)
                &&& !retry ==> step.0 == Resolution::Replacing { release, configured_missing }
                &&& retry ==> step.0 == Resolution::Rejecting {
                    error: "checksum mismatch for downloaded tusk-php "@ + release.version + " ("@
                        + release.platform_arch + "): expected "@ + release.expected_sha
                        + ", got "@ + actual,
                }
            }
        }),
{
}

/// What the user is told when a download or a read fails: what was tried, why it failed, and,
/// for the first download, what to do, which depends on whether a binary is configured.
pub proof fn law_failures_are_told(
    release: Release<Seq<char>>,
    configured_missing: bool,
    error: Seq<char>,
)
    ensures
        next_step(
            Resolution::Downloading { release, configured_missing: true, retry: false },
            Event::Downloaded(Err(error)),
        ).1 == Action::<Seq<char>>::Finish(
            Err(
                "tusk-php language server not found: not on PATH, configured binary.path does not exist on the target host, and the release download failed ("@
                    + error
                    + "). Install tusk-php on the remote PATH or unset/correct lsp.tusk-php.binary.path."@,
            ),
        ),
        next_step(
            Resolution::Downloading { release, configured_missing: false, retry: false },
            Event::Downloaded(Err(error)),
        ).1 == Action::<Seq<char>>::Finish(
            Err(
                "tusk-php language server not found: not on PATH and the release download failed ("@
                    + error
                    + "). Install tusk-php manually or ensure network access to GitHub releases."@,
            ),
        ),
        next_step(
            Resolution::Downloading { release, configured_missing, retry: true },
            Event::Downloaded(Err(error)),
        ).1 == Action::<Seq<char>>::Finish(
            Err("re-download after checksum mismatch failed: "@ + error),
        ),
        next_step(
            Resolution::Checking { release, configured_missing, retry: false },
            Event::Read(Err(error)),
        ).1 == Action::<Seq<char>>::Finish(
            Err("failed to read "@ + release.binary_path + ": "@ + error),
        ),
        next_step(
            Resolution::Checking { release, configured_missing, retry: true },
            Event::Read(Err(error)),
        ).1 == Action::<Seq<char>>::Finish(
            Err("failed to read "@ + release.binary_path + " after re-download: "@ + error),
        ),
{
}

/// Only a path that a resolution finishes with is remembered; any other step leaves what is
/// remembered as it was.
pub proof fn law_what_is_remembered(cached: Option<Seq<char>>, step: Step, path: Seq<char>)
    ensures
        step.1 == Action::<Seq<char>>::Finish(Ok(path)) ==> remembered(cached, step) == Some(path),
        !(step.1 matches Action::Finish(Ok(_))) ==> remembered(cached, step) == cached,
{
}

/// What a request and a step hold is what each of their strings holds.
pub proof fn law_requests_hold_their_texts(
    request: Request<String>,
    step: (Resolution<String>, Action<String>),
)
    ensures
        request@.root_path == request.root_path@,
        request@.pin_toml == request.pin_toml@,
        request@.os == request.os,
        request@.arch == request.arch,
        request.configured_path matches Some(raw) ==> request@.configured_path == Some(raw@),
        request.configured_path is None ==> request@.configured_path is None,
        step_of(step).0 == step.0@,
        step_of(step).1 == step.1@,
{
}

/// Whether the two actions are the same, one with strings and one with their texts.
pub open spec fn same_action(action: Action<String>, held: Action<Seq<char>>) -> bool {
    match (action, held) {
        (Action::IsFile(a), Action::IsFile(b)) => a@ == b,
        (Action::Which(a), Action::Which(b)) => a@ == b,
        (Action::CreateDirectory(a), Action::CreateDirectory(b)) => a@ == b,
        (Action::Download { url: a, path: x }, Action::Download { url: b, path: y }) => a@ == b
            && x@ == y,
        (Action::Read(a), Action::Read(b)) => a@ == b,
        (Action::Remove(a), Action::Remove(b)) => a@ == b,
        (Action::MakeExecutable(a), Action::MakeExecutable(b)) => a@ == b,
        (Action::Finish(Ok(a)), Action::Finish(Ok(b))) => a@ == b,
        (Action::Finish(Err(a)), Action::Finish(Err(b))) => a@ == b,
        _ => false,
    }
}

/// Whether the two events are the same, one with strings and one with their texts.
pub open spec fn same_event(event: Event<String, Vec<u8>>, held: Happening) -> bool {
    match (event, held) {
        (Event::IsFile(a), Event::IsFile(b)) => a == b,
        (Event::Which(Some(a)), Event::Which(Some(b))) => a@ == b,
        (Event::Which(None), Event::Which(None)) => true,
        (Event::DirectoryCreated, Event::DirectoryCreated) => true,
        (Event::Downloaded(Ok(_)), Event::Downloaded(Ok(_))) => true,
        (Event::Downloaded(Err(a)), Event::Downloaded(Err(b))) => a@ == b,
        (Event::Read(Ok(a)), Event::Read(Ok(b))) => a@ == b,
        (Event::Read(Err(a)), Event::Read(Err(b))) => a@ == b,
        (Event::Removed, Event::Removed) => true,
        (Event::MadeExecutable(Ok(_)), Event::MadeExecutable(Ok(_))) => true,
        (Event::MadeExecutable(Err(a)), Event::MadeExecutable(Err(b))) => a@ == b,
        _ => false,
    }
}

/// Whether the two resolutions are the same, one with strings and one with their texts.
pub open spec fn same_resolution(
    resolution: Resolution<String>,
    held: Resolution<Seq<char>>,
) -> bool {
    match (resolution, held) {
        (
            Resolution::Cached { path: a, request: x },
            Resolution::Cached { path: b, request: y },
        ) => a@ == b && x@ == y,
        (Resolution::OnPath { request: x }, Resolution::OnPath { request: y }) => x@ == y,
        (
            Resolution::Configured { path: a, request: x },
            Resolution::Configured { path: b, request: y },
        ) => a@ == b && x@ == y,
        (
            Resolution::Installed { release: x, configured_missing: a },
            Resolution::Installed { release: y, configured_missing: b },
        ) => x@ == y && a == b,
        (
            Resolution::MakingDirectory { release: x, configured_missing: a, retry: m },
            Resolution::MakingDirectory { release: y, configured_missing: b, retry: n },
        ) => x@ == y && a == b && m == n,
        (
            Resolution::Downloading { release: x, configured_missing: a, retry: m },
            Resolution::Downloading { release: y, configured_missing: b, retry: n },
        ) => x@ == y && a == b && m == n,
        (
            Resolution::Checking { release: x, configured_missing: a, retry: m },
            Resolution::Checking { release: y, configured_missing: b, retry: n },
        ) => x@ == y && a == b && m == n,
        (
            Resolution::Replacing { release: x, configured_missing: a },
            Resolution::Replacing { release: y, configured_missing: b },
        ) => x@ == y && a == b,
        (Resolution::Rejecting { error: a }, Resolution::Rejecting { error: b }) => a@ == b,
        (Resolution::Enabling { release: x }, Resolution::Enabling { release: y }) => x@ == y,
        (Resolution::Finished, Resolution::Finished) => true,
        _ => false,
    }
}

/// What an action, an event and a resolution hold is what each of their parts holds.
pub proof fn law_steps_hold_their_parts(
    action: Action<String>,
    event: Event<String, Vec<u8>>,
    resolution: Resolution<String>,
)
    ensures
        same_action(action, action@),
        same_event(event, event@),
        same_resolution(resolution, resolution@),
{
}

} // verus!
