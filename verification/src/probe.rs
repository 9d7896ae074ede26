//! Probing the streams of a playback request.

use vstd::prelude::*;

use crate::ids::MediaId;
use crate::media::Media;
use crate::media::MediaSourceInfo;
use crate::media::MediaSourceRemuxInfo;
use crate::media_info::is_info_of;
use crate::media_info::known_size;
use crate::media_info::media_info_from_probe;
use crate::media_info::MediaInfo;
use crate::stream_service::StreamSelection;
use crate::stream_service::StreamService;
use crate::transcode::value_or;
use crate::transcode::value_or_default;

verus! {

/// The probe settings of the server, as far as they are set.
#[derive(Debug)]
pub struct ProbeConfig {
    pub probe_timeout_secs: Option<i64>,
    /// The same for streams from other peers.
    pub probe_timeout_p2p_secs: Option<i64>,
    pub auto_next_stream_on_probe_fail: Option<bool>,
    pub max_probe_fallback_streams: Option<i64>,
    /// The media database is told of what a probe finds.
    pub remuxdb_enabled: Option<bool>,
}

/// The next probe.
#[derive(Debug)]
pub struct ProbePlan {
    pub url: Option<String>,
    /// The stream is offered as it is known.
    pub skip_probe: bool,
    /// The picture was known before.
    pub was_cached: bool,
    pub timeout_secs: u64,
    /// Another stream is tried where the probe fails.
    pub auto_next: bool,
    pub max_retries: usize,
    pub restrict_resolution: bool,
}

/// What becomes of a probe in the media database.
#[derive(Debug)]
pub enum Submission {
    /// Nothing, since nothing new was found.
    Cached,
    /// Nothing, since the server does not want it.
    Disabled,
    /// Nothing, since there is no database.
    NoDatabase,
    /// Nothing, since too little is known.
    Incomplete,
    Submit(MediaInfo),
}

/// An earlier probe found a picture.
pub open spec fn has_known_picture(stream: Media) -> bool {
    stream.probe_data matches Some(probe) && probe.video_stream is Some
}

/// A stream from other peers.
pub open spec fn is_from_peers(stream: Media) -> bool {
    stream.stream_info matches Some(info) && info.is_p2p
}

/// How long a probe of a stream may take, in seconds.
pub open spec fn timeout_for(config: ProbeConfig, stream: Media) -> u64 {
    if is_from_peers(stream) {
        value_or(config.probe_timeout_p2p_secs, 60i64) as u64
    } else {
        value_or(config.probe_timeout_secs, 20i64) as u64
    }
}

/// The probe of the candidate at a position of a selection.
pub open spec fn is_plan_of(
    plan: ProbePlan,
    selection: StreamSelection,
    config: ProbeConfig,
    idx: int,
) -> bool {
    let stream = *selection.candidates@[idx];
    &&& plan.url == (match stream.stream_info {
        Some(info) => Some(info.server_input),
        None => None,
    })
    &&& plan.skip_probe == (selection.probe_only_first && idx > 0)
    &&& plan.was_cached == has_known_picture(stream)
    &&& plan.timeout_secs == timeout_for(config, stream)
    &&& plan.auto_next == value_or(config.auto_next_stream_on_probe_fail, true)
    &&& plan.max_retries == value_or(config.max_probe_fallback_streams, 3i64) as usize
    &&& plan.restrict_resolution == selection.restrict_resolution
}

/// The probe of the candidate at a position, where there is one.
pub open spec fn is_next_plan(
    next: Option<ProbePlan>,
    selection: StreamSelection,
    config: ProbeConfig,
    idx: int,
) -> bool {
    match next {
        Some(plan) => idx < selection.candidates@.len() && is_plan_of(plan, selection, config, idx),
        None => idx >= selection.candidates@.len(),
    }
}

fn find_timeout(config: &ProbeConfig, stream: &Media) -> (r: u64)
    ensures
        r == timeout_for(*config, *stream),
{
    let from_peers: bool = match &stream.stream_info {
        Some(info) => info.is_p2p,
        None => false,
    };
    let seconds: i64 = if from_peers {
        value_or_default(config.probe_timeout_p2p_secs, 60)
    } else {
        value_or_default(config.probe_timeout_secs, 20)
    };
    #[verifier::truncate]
    (seconds as u64)
}

/// The id under which a client sees a probed source: that of the group that the
/// stream stands for, else the one that the service gives it. A group keeps its id
/// when its streams change.
pub open spec fn shown_id(service: StreamService, stream: Media, effective: Media) -> MediaId {
    match stream.group_id {
        Some(group) => group,
        None => service.id_for(effective),
    }
}

/// The name under which a client sees a probed source.
pub open spec fn shown_name(service: StreamService, stream: Media, effective: Media) -> Seq<char> {
    if stream.group_id is Some {
        stream.title@
    } else {
        match service.group {
            Some(g) => g.1@,
            None => effective.title@,
        }
    }
}

/// `after` is what the probe said, made ready for the client: with its id, name
/// and path on this server, and with what the provider said of the stream.
pub open spec fn is_stamped(
    service: StreamService,
    before: MediaSourceInfo,
    after: MediaSourceInfo,
    stream: Media,
    effective: Media,
    provider_info: Option<String>,
) -> bool {
    &&& after.name matches Some(name) && name@ == shown_name(service, stream, effective)
    &&& after.path matches Some(path) && path@ == "/remux/"@ + effective.id.hyphenated()
    &&& after == (MediaSourceInfo {
        id: shown_id(service, stream, effective),
        e_tag: shown_id(service, stream, effective),
        name: after.name,
        has_segments: true,
        path: after.path,
        is_remote: false,
        remux: Some(
            MediaSourceRemuxInfo {
                provider_info: if stream.stream_info is Some {
                    provider_info
                } else {
                    None
                },
            },
        ),
        ..before
    })
}

/// What becomes of a probe in the media database.
pub open spec fn is_submission_of(
    submission: Submission,
    config: ProbeConfig,
    has_database: bool,
    source: MediaSourceInfo,
    stream: Media,
    effective: Media,
    item: Option<&Media>,
) -> bool {
    if has_known_picture(stream) {
        submission is Cached
    } else if !value_or(config.remuxdb_enabled, true) {
        submission is Disabled
    } else if !has_database {
        submission is NoDatabase
    } else if known_size(source, effective) is None {
        submission is Incomplete
    } else {
        submission matches Submission::Submit(info) && is_info_of(info, source, effective, item)
    }
}

fn known_picture(stream: &Media) -> (r: bool)
    ensures
        r == has_known_picture(*stream),
{
    match &stream.probe_data {
        Some(probe) => probe.video_stream.is_some(),
        None => false,
    }
}

/// What becomes of the probe of `stream` in the media database. `source` is what a
/// client sees of it, `effective` the stream that was probed in the end.
pub fn decide_submission(
    config: &ProbeConfig,
    has_database: bool,
    source: &MediaSourceInfo,
    stream: &Media,
    effective: &Media,
    item: Option<&Media>,
) -> (r: Submission)
    ensures
        is_submission_of(r, *config, has_database, *source, *stream, *effective, item),
{
    if known_picture(stream) {
        return Submission::Cached;
    }
    if !value_or_default(config.remuxdb_enabled, true) {
        return Submission::Disabled;
    }
    if !has_database {
        return Submission::NoDatabase;
    }
    match media_info_from_probe(source, effective, item) {
        Some(info) => Submission::Submit(info),
        None => Submission::Incomplete,
    }
}

/// The probe of the candidate at a position of a selection; `None` behind the
/// last one.
pub fn plan_probe(selection: &StreamSelection, config: &ProbeConfig, idx: usize) -> (r: Option<
    ProbePlan,
>)
    ensures
        is_next_plan(r, *selection, *config, idx as int),
{
    if idx >= selection.candidates.len() {
        return None;
    }
    let stream: &Media = selection.candidates[idx];
    let retries: i64 = value_or_default(config.max_probe_fallback_streams, 3);
    Some(
        ProbePlan {
            url: match &stream.stream_info {
                Some(info) => Some(info.server_input.clone()),
                None => None,
            },
            skip_probe: selection.probe_only_first && idx > 0,
            was_cached: known_picture(stream),
            timeout_secs: find_timeout(config, stream),
            auto_next: value_or_default(config.auto_next_stream_on_probe_fail, true),
            max_retries: #[verifier::truncate] (retries as usize),
            restrict_resolution: selection.restrict_resolution,
        },
    )
}

/// A probed candidate.
#[derive(Debug)]
pub struct ProbeResult<'a> {
    /// What a client sees of it.
    pub source: MediaSourceInfo,
    /// The candidate.
    pub stream: &'a Media,
    /// The stream that was probed in the end.
    pub effective_stream: Media,
}

/// What happened to the candidates of a selection.
#[derive(Debug)]
pub enum ProbeEvent {
    Begin,
    /// The next candidate was probed: what the probe said, the stream that was
    /// probed in the end, and what the provider said of the candidate.
    Probed { source: MediaSourceInfo, effective: Media, provider_info: Option<String> },
}

/// What is to be done after that.
#[derive(Debug)]
pub struct ProbeStep {
    /// What becomes of the last probe in the media database.
    pub submission: Option<Submission>,
    /// The next probe; `None` when all candidates have been probed.
    pub next: Option<ProbePlan>,
}

/// What every probe of a service goes by.
#[derive(Debug)]
pub struct ProbeContext<'a> {
    pub config: ProbeConfig,
    /// There is a media database.
    pub has_database: bool,
    /// The item of the request.
    pub item: Option<&'a Media>,
}

/// How the probing of a selection goes on: the candidates are probed one by one in
/// their order, and each result is made ready for the client.
pub open spec fn probe_step(
    service: StreamService,
    selection: StreamSelection,
    context: ProbeContext,
    before: Seq<ProbeResult>,
    after: Seq<ProbeResult>,
    event: ProbeEvent,
    step: ProbeStep,
) -> bool {
    &&& is_next_plan(step.next, selection, context.config, after.len() as int)
    &&& match event {
        ProbeEvent::Probed { source, effective, provider_info } if before.len()
            < selection.candidates@.len() => {
            let stream = *selection.candidates@[before.len() as int];
            &&& after.len() == before.len() + 1
            &&& after.take(before.len() as int) == before
            &&& *after.last().stream == stream
            &&& after.last().effective_stream == effective
            &&& is_stamped(
                service,
                source,
                after.last().source,
                stream,
                effective,
                provider_info,
            )
            &&& step.submission matches Some(submission) && is_submission_of(
                submission,
                context.config,
                context.has_database,
                after.last().source,
                stream,
                effective,
                context.item,
            )
        },
        _ => after == before && step.submission is None,
    }
}

impl StreamService {
    /// Probes the candidates of a selection: takes what happened into the results
    /// so far and says what is to be done next. It starts with
    /// [`ProbeEvent::Begin`] and no results.
    pub fn probe_candidates<'a>(
        &self,
        selection: &StreamSelection<'a>,
        context: &ProbeContext,
        results: &mut Vec<ProbeResult<'a>>,
        event: ProbeEvent,
    ) -> (step: ProbeStep)
        ensures
            probe_step(
                *self,
                *selection,
                *context,
                old(results)@,
                final(results)@,
                event,
                step,
            ),
    {
        let mut submission: Option<Submission> = None;
        let ghost before = results@;
        match event {
            ProbeEvent::Probed { source, effective, provider_info } => {
                if results.len() < selection.candidates.len() {
                    let stream: &'a Media = selection.candidates[results.len()];
                    let stamped: MediaSourceInfo = self.stamp_source(
                        source,
                        stream,
                        &effective,
                        provider_info,
                    );
                    submission = Some(
                        decide_submission(
                            &context.config,
                            context.has_database,
                            &stamped,
                            stream,
                            &effective,
                            context.item,
                        ),
                    );
                    results.push(
                        ProbeResult { source: stamped, stream, effective_stream: effective },
                    );
                    assert(results@.take(before.len() as int) =~= before);
                }
            },
            ProbeEvent::Begin => {},
        }
        ProbeStep { submission, next: plan_probe(selection, &context.config, results.len()) }
    }

    /// Makes what a probe of `stream` said ready for the client. `effective` is the
    /// stream that was probed in the end, `provider_info` what the provider said of
    /// the stream.
    pub fn stamp_source(
        &self,
        source: MediaSourceInfo,
        stream: &Media,
        effective: &Media,
        provider_info: Option<String>,
    ) -> (r: MediaSourceInfo)
        ensures
            is_stamped(*self, source, r, *stream, *effective, provider_info),
    {
        let (id, name): (MediaId, String) = match stream.group_id {
            Some(group) => (group, stream.title.clone()),
            None => (self.source_id_for(effective), self.source_name_for(effective)),
        };
        let mut path: String = "/remux/".to_owned();
        path.append(effective.id.to_text().as_str());
        let mut r: MediaSourceInfo = source;
        r.id = id;
        r.e_tag = id;
        r.name = Some(name);
        r.has_segments = true;
        r.path = Some(path);
        r.is_remote = false;
        r.remux = Some(
            MediaSourceRemuxInfo {
                provider_info: if stream.stream_info.is_some() {
                    provider_info
                } else {
                    None
                },
            },
        );
        r
    }
}

// ---------------------------------------------------------------------------
// Laws
// ---------------------------------------------------------------------------

/// A result that belongs to the candidate at its position and is shown as it
/// should be.
pub open spec fn is_result_at(
    service: StreamService,
    selection: StreamSelection,
    results: Seq<ProbeResult>,
    k: int,
) -> bool {
    let stream = *selection.candidates@[k];
    let effective = results[k].effective_stream;
    &&& *results[k].stream == stream
    &&& results[k].source.id == shown_id(service, stream, effective)
    &&& results[k].source.name matches Some(name) && name@ == shown_name(
        service,
        stream,
        effective,
    )
    &&& results[k].source.path matches Some(path) && path@ == "/remux/"@
        + effective.id.hyphenated()
}

/// The results so far belong to the first candidates, one to each.
pub open spec fn are_results_of(
    service: StreamService,
    selection: StreamSelection,
    results: Seq<ProbeResult>,
) -> bool {
    &&& results.len() <= selection.candidates@.len()
    &&& forall|k: int|
        0 <= k < results.len() ==> #[trigger] is_result_at(service, selection, results, k)
}

/// Each candidate gets one result, in the order of the candidates: every step of
/// the probing keeps that of the results so far, and the probing ends when all
/// candidates have theirs.
pub proof fn every_candidate_is_probed(
    service: StreamService,
    selection: StreamSelection,
    context: ProbeContext,
    before: Seq<ProbeResult>,
    after: Seq<ProbeResult>,
    event: ProbeEvent,
    step: ProbeStep,
)
    requires
        are_results_of(service, selection, before),
        probe_step(service, selection, context, before, after, event, step),
    ensures
        are_results_of(service, selection, after),
        step.next is None <==> after.len() == selection.candidates@.len(),
        event is Probed && before.len() < selection.candidates@.len() ==> after.len()
            == before.len() + 1,
{
    assert forall|k: int| 0 <= k < after.len() implies #[trigger] is_result_at(
        service,
        selection,
        after,
        k,
    ) by {
        if k < before.len() {
            assert(after.take(before.len() as int)[k] == after[k]);
            assert(is_result_at(service, selection, before, k));
        }
    }
}

/// Where the client named no stream, only the first candidate is probed.
pub proof fn unnamed_requests_probe_once(
    plan: ProbePlan,
    selection: StreamSelection,
    config: ProbeConfig,
    idx: int,
)
    requires
        is_plan_of(plan, selection, config, idx),
        selection.probe_only_first,
    ensures
        plan.skip_probe <==> idx > 0,
{
}

/// What a client sees of a group does not depend on the stream that was probed in
/// the end, but for its path.
pub proof fn groups_look_the_same(
    service: StreamService,
    stream: Media,
    one: Media,
    other: Media,
)
    requires
        stream.group_id is Some || service.group is Some,
    ensures
        shown_id(service, stream, one) == shown_id(service, stream, other),
        shown_name(service, stream, one) == shown_name(service, stream, other),
{
}

/// What the probe said of the file itself reaches the client unchanged.
pub proof fn stamping_keeps_the_probe(
    service: StreamService,
    before: MediaSourceInfo,
    after: MediaSourceInfo,
    stream: Media,
    effective: Media,
    provider_info: Option<String>,
)
    requires
        is_stamped(service, before, after, stream, effective, provider_info),
    ensures
        after.media_streams == before.media_streams,
        after.container == before.container,
        after.size == before.size,
        after.run_time_ticks == before.run_time_ticks,
        after.bitrate == before.bitrate,
        after.id == after.e_tag,
{
}

/// The media database is told of a stream only where something new was found, the
/// server wants it and there is a database.
pub proof fn known_streams_are_not_told_again(
    submission: Submission,
    config: ProbeConfig,
    has_database: bool,
    source: MediaSourceInfo,
    stream: Media,
    effective: Media,
    item: Option<&Media>,
)
    requires
        is_submission_of(submission, config, has_database, source, stream, effective, item),
    ensures
        submission is Submit ==> !has_known_picture(stream) && has_database
            && config.remuxdb_enabled != Some(false),
{
}

/// The next probe is that of the candidate at the place, at its address. It is
/// skipped behind the first where only the first is probed, takes as long as the
/// server allows for the stream, and falls back as the server says.
pub proof fn probes_are_planned_by_place(
    selection: &StreamSelection,
    config: &ProbeConfig,
    idx: usize,
    r: Option<ProbePlan>,
)
    requires
        call_ensures(plan_probe, (selection, config, idx), r),
    ensures
        r is None <==> idx >= selection.candidates@.len(),
        r matches Some(plan) ==> {
            let stream = *selection.candidates@[idx as int];
            &&& stream.stream_info matches Some(info) ==> plan.url == Some(info.server_input)
            &&& stream.stream_info is None ==> plan.url is None
            &&& plan.skip_probe <==> selection.probe_only_first && idx > 0
            &&& plan.was_cached <==> (stream.probe_data matches Some(probe)
                && probe.video_stream is Some)
            &&& plan.auto_next <==> config.auto_next_stream_on_probe_fail != Some(false)
            &&& plan.restrict_resolution == selection.restrict_resolution
            &&& config.max_probe_fallback_streams is None ==> plan.max_retries == 3
            &&& config.max_probe_fallback_streams matches Some(n) ==> 0 <= n <= usize::MAX
                ==> plan.max_retries == n
            &&& (stream.stream_info matches Some(info) && info.is_p2p) ==> {
                &&& config.probe_timeout_p2p_secs is None ==> plan.timeout_secs == 60
                &&& config.probe_timeout_p2p_secs matches Some(n) ==> (n - plan.timeout_secs)
                    % 0x1_0000_0000_0000_0000 == 0
            }
            &&& !(stream.stream_info matches Some(info) && info.is_p2p) ==> {
                &&& config.probe_timeout_secs is None ==> plan.timeout_secs == 20
                &&& config.probe_timeout_secs matches Some(n) ==> (n - plan.timeout_secs)
                    % 0x1_0000_0000_0000_0000 == 0
            }
        },
{
    if let Some(n) = config.probe_timeout_p2p_secs {
        assert(n == (n as u64) || n + 0x1_0000_0000_0000_0000 == (n as u64)) by (bit_vector);
    }
    if let Some(n) = config.probe_timeout_secs {
        assert(n == (n as u64) || n + 0x1_0000_0000_0000_0000 == (n as u64)) by (bit_vector);
    }
}

/// What becomes of a probe: nothing where the picture was known before, where the
/// server does not want it, where there is no database or where the size of the file
/// is not known, in this order; otherwise it is told.
pub proof fn new_findings_are_told(
    config: &ProbeConfig,
    has_database: bool,
    source: &MediaSourceInfo,
    stream: &Media,
    effective: &Media,
    item: Option<&Media>,
    r: Submission,
)
    requires
        call_ensures(
            decide_submission,
            (config, has_database, source, stream, effective, item),
            r,
        ),
    ensures
        ({
            let known = stream.probe_data matches Some(probe) && probe.video_stream is Some;
            let wanted = config.remuxdb_enabled != Some(false);
            &&& r is Cached <==> known
            &&& r is Disabled <==> !known && !wanted
            &&& r is NoDatabase <==> !known && wanted && !has_database
            &&& r is Incomplete <==> !known && wanted && has_database && known_size(
                *source,
                *effective,
            ) is None
            &&& r is Submit <==> !known && wanted && has_database && known_size(
                *source,
                *effective,
            ) is Some
            &&& r matches Submission::Submit(info) ==> is_info_of(info, *source, *effective, item)
        }),
{
}

/// A client sees a probed source under the id and the title of the group that its
/// candidate stands for, else under those of the group that was asked for, else
/// under those of the stream that was probed in the end; and always at the path of
/// that stream on this server. What the probe says of the file stays.
pub proof fn sources_are_shown_under_their_group(
    service: &StreamService,
    source: MediaSourceInfo,
    stream: &Media,
    effective: &Media,
    provider_info: Option<String>,
    r: MediaSourceInfo,
)
    requires
        call_ensures(
            StreamService::stamp_source,
            (service, source, stream, effective, provider_info),
            r,
        ),
    ensures
        r.e_tag == r.id,
        stream.group_id matches Some(group) ==> r.id == group && (r.name matches Some(name) && name@
            == stream.title@),
        stream.group_id is None ==> (service.group matches Some(g) ==> r.id == g.0 && (
        r.name matches Some(name) && name@ == g.1@)),
        stream.group_id is None && service.group is None ==> r.id == effective.id && (
        r.name matches Some(name) && name@ == effective.title@),
        r.path matches Some(path) && path@ == "/remux/"@ + effective.id.hyphenated(),
        r.has_segments && !r.is_remote,
        r.remux matches Some(remux) && remux.provider_info == (if stream.stream_info is Some {
            provider_info
        } else {
            None
        }),
        r.container == source.container && r.size == source.size,
        r.run_time_ticks == source.run_time_ticks && r.bitrate == source.bitrate,
        r.default_subtitle_stream_index == source.default_subtitle_stream_index,
        r.media_streams == source.media_streams,
{
}

/// A probe adds one result behind those so far, for the candidate whose turn it is,
/// with the stream that was probed in the end and the source made ready; and what
/// becomes of it is decided by that source. Once all candidates have been probed,
/// nothing is added.
pub proof fn probes_add_one_result(
    service: StreamService,
    selection: StreamSelection,
    context: ProbeContext,
    before: Seq<ProbeResult>,
    after: Seq<ProbeResult>,
    event: ProbeEvent,
    step: ProbeStep,
)
    requires
        probe_step(service, selection, context, before, after, event, step),
    ensures
        is_next_plan(step.next, selection, context.config, after.len() as int),
        event is Begin || before.len() >= selection.candidates@.len() ==> after == before
            && step.submission is None,
        before.len() < selection.candidates@.len() ==> (event matches ProbeEvent::Probed {
            source,
            effective,
            provider_info,
        } ==> {
            let result = after[before.len() as int];
            &&& after.len() == before.len() + 1
            &&& forall|k: int| 0 <= k < before.len() ==> #[trigger] after[k] == before[k]
            &&& *result.stream == *selection.candidates@[before.len() as int]
            &&& result.effective_stream == effective
            &&& is_stamped(
                service,
                source,
                result.source,
                *result.stream,
                effective,
                provider_info,
            )
            &&& step.submission matches Some(submission) && is_submission_of(
                submission,
                context.config,
                context.has_database,
                result.source,
                *result.stream,
                effective,
                context.item,
            )
        }),
{
    if event is Probed && before.len() < selection.candidates@.len() {
        assert forall|k: int| 0 <= k < before.len() implies #[trigger] after[k] == before[k] by {
            assert(after.take(before.len() as int)[k] == before[k]);
        }
    }
}

} // verus!
