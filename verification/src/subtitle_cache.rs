//! The cache of extracted subtitles and the ffmpeg runs that fill it.

use vstd::prelude::*;
use vstd::utf8::decode_first_scalar;
use vstd::utf8::decode_utf8;
use vstd::utf8::pop_first_scalar;
use vstd::utf8::valid_utf8;

use crate::ids::ids_have_distinct_texts;
use crate::ids::MediaId;
use crate::number::decimal;
use crate::number::decimal_i64;
use crate::text::blank;
use crate::text::is_blank;
use crate::text::is_white_space;
use crate::text::push_text;
use crate::text::texts;

verus! {

/// The directory of the cache, below the data directory.
pub const CACHE_DIR: &'static str = "subtitle-cache";

/// How long an ffmpeg run may take, in seconds.
pub const EXTRACTION_TIMEOUT_SECS: u64 = 120;

// ---------------------------------------------------------------------------
// Cache files
// ---------------------------------------------------------------------------

/// The name of the cache file of a subtitle stream.
pub open spec fn cache_name(item_id: MediaId, stream_index: int) -> Seq<char> {
    item_id.hyphenated() + "_"@ + decimal(stream_index) + ".srt"@
}

/// Names the cache file of a subtitle stream.
pub fn cache_file_name(item_id: MediaId, stream_index: i64) -> (r: String)
    ensures
        r@ == cache_name(item_id, stream_index as int),
{
    let mut r: String = item_id.to_text();
    r.append("_");
    r.append(decimal_i64(stream_index).as_str());
    r.append(".srt");
    r
}

/// No two subtitle streams share a cache file.
pub proof fn cache_names_are_distinct(a: MediaId, i: int, b: MediaId, j: int)
    requires
        cache_name(a, i) == cache_name(b, j),
    ensures
        a == b,
        i == j,
{
    reveal_strlit("_");
    reveal_strlit(".srt");
    let x = cache_name(a, i);
    let y = cache_name(b, j);
    assert(a.hyphenated().len() == 36);
    assert(b.hyphenated().len() == 36);
    assert(x.take(36) =~= a.hyphenated());
    assert(y.take(36) =~= b.hyphenated());
    ids_have_distinct_texts(a, b);
    assert(x.subrange(37, x.len() - 4) =~= decimal(i));
    assert(y.subrange(37, y.len() - 4) =~= decimal(j));
    crate::number::decimals_are_distinct(i, j);
}

/// Bytes as `String::from_utf8_lossy` reads them.
pub uninterp spec fn lossy_text(bytes: Seq<u8>) -> Seq<char>;

/// `String::from_utf8_lossy`: the bytes as text, with a replacement character
/// for what is not valid UTF-8. Bytes that are valid UTF-8 are read as such.
#[verifier::external_body]
fn read_lossy(bytes: &Vec<u8>) -> (r: String)
    ensures
        r@ == lossy_text(bytes@),
        valid_utf8(bytes@) ==> r@ == decode_utf8(bytes@),
{
    String::from_utf8_lossy(bytes).into_owned()
}

/// Bytes as text: valid UTF-8 as it stands, anything else with replacements.
pub open spec fn text_of_bytes(bytes: Seq<u8>) -> Seq<char> {
    if valid_utf8(bytes) {
        decode_utf8(bytes)
    } else {
        lossy_text(bytes)
    }
}

/// Reads bytes as text.
pub fn bytes_to_text(bytes: &Vec<u8>) -> (r: String)
    ensures
        r@ == text_of_bytes(bytes@),
{
    read_lossy(bytes)
}

/// The content of a cache file is good: the file is there and holds more than
/// white space.
pub open spec fn is_cached(content: Option<Vec<u8>>) -> bool {
    content matches Some(bytes) && !is_blank(text_of_bytes(bytes@))
}

/// Whether the content of a cache file is good; `None` where there is no file.
pub fn cache_is_good(content: &Option<Vec<u8>>) -> (r: bool)
    ensures
        r == is_cached(*content),
{
    match content {
        Some(bytes) => !blank(bytes_to_text(bytes).as_str()),
        None => false,
    }
}

/// An ASCII white-space byte, as ffmpeg output is tested for.
pub open spec fn is_space_byte(b: u8) -> bool {
    b == 0x20 || b == 0x9 || b == 0xa || b == 0xc || b == 0xd
}

/// Bytes of ASCII white space alone, none included.
pub open spec fn is_blank_bytes(bytes: Seq<u8>) -> bool {
    forall|i: int| 0 <= i < bytes.len() ==> is_space_byte(#[trigger] bytes[i])
}

/// Whether bytes are ASCII white space alone.
pub fn blank_bytes(bytes: &Vec<u8>) -> (r: bool)
    ensures
        r == is_blank_bytes(bytes@),
{
    let mut i: usize = 0;
    while i < bytes.len()
        invariant
            i <= bytes.len(),
            forall|k: int| 0 <= k < i ==> is_space_byte(#[trigger] bytes@[k]),
        decreases bytes.len() - i,
    {
        let b: u8 = bytes[i];
        if !(b == 0x20 || b == 0x9 || b == 0xa || b == 0xc || b == 0xd) {
            assert(!is_space_byte(bytes@[i as int]));
            return false;
        }
        i += 1;
    }
    true
}

// ---------------------------------------------------------------------------
// One subtitle
// ---------------------------------------------------------------------------

/// A subtitle stream to be extracted.
#[derive(Debug)]
pub struct ExtractJob {
    pub input_url: String,
    pub map_spec: String,
    /// The cache file, where its path is valid Unicode.
    pub cache_path: Option<String>,
}

/// How an ffmpeg run ended.
#[derive(Debug)]
pub enum RunOutcome {
    TimedOut,
    /// It could not be started; the reason.
    NotStarted(String),
    Exited { success: bool, stderr: Vec<u8> },
}

/// What happened during an extraction.
#[derive(Debug)]
pub enum ExtractEvent {
    /// The cache directory could not be made; the reason.
    NoCacheDir(String),
    /// What the cache file holds; `None` where it is not there. A file that
    /// cannot be read holds nothing.
    Cache(Option<Vec<u8>>),
    Ran(RunOutcome),
    /// What ffmpeg wrote into the cache file, or why it cannot be read.
    Output(Result<Vec<u8>, String>),
}

/// What an extraction asks for next.
#[derive(Debug)]
pub enum ExtractAction {
    /// The cache file is ready.
    Ready,
    /// Run ffmpeg with these arguments.
    Run(Vec<String>),
    /// Read the cache file.
    ReadOutput,
    /// Give up; take the cache file away first where `remove` says so.
    Fail { message: String, remove: bool },
}

/// The arguments of an ffmpeg run that writes one subtitle stream as SRT.
pub open spec fn extract_args(input: Seq<char>, map_spec: Seq<char>, output: Seq<char>) -> Seq<
    Seq<char>,
> {
    seq![
        "-y"@,
        "-nostdin"@,
        "-copyts"@,
        "-i"@,
        input,
        "-map"@,
        map_spec,
        "-an"@,
        "-vn"@,
        "-c:s"@,
        "srt"@,
        "-f"@,
        "srt"@,
        output,
    ]
}

fn write_extract_args(input: &str, map_spec: &str, output: &str) -> (r: Vec<String>)
    ensures
        texts(r@) == extract_args(input@, map_spec@, output@),
{
    let mut args: Vec<String> = Vec::new();
    assert(texts(args@) =~= Seq::<Seq<char>>::empty());
    push_text(&mut args, "-y");
    push_text(&mut args, "-nostdin");
    push_text(&mut args, "-copyts");
    push_text(&mut args, "-i");
    push_text(&mut args, input);
    push_text(&mut args, "-map");
    push_text(&mut args, map_spec);
    push_text(&mut args, "-an");
    push_text(&mut args, "-vn");
    push_text(&mut args, "-c:s");
    push_text(&mut args, "srt");
    push_text(&mut args, "-f");
    push_text(&mut args, "srt");
    push_text(&mut args, output);
    assert(texts(args@) =~= extract_args(input@, map_spec@, output@));
    args
}

/// A failure with this message.
pub open spec fn fails_with(action: ExtractAction, text: Seq<char>, taken_away: bool) -> bool {
    action matches ExtractAction::Fail { message, remove } && message@ == text && remove
        == taken_away
}

/// What an extraction does next: a good cache file is kept, else ffmpeg runs,
/// and its output counts only if the run succeeded and wrote more than white
/// space.
pub open spec fn extract_step(job: ExtractJob, event: ExtractEvent, action: ExtractAction) -> bool {
    match event {
        ExtractEvent::NoCacheDir(e) => fails_with(
            action,
            "failed to create subtitle cache dir: "@ + e@,
            false,
        ),
        ExtractEvent::Cache(content) => if is_cached(content) {
            action is Ready
        } else {
            match job.cache_path {
                Some(path) => action matches ExtractAction::Run(args) && texts(args@)
                    == extract_args(job.input_url@, job.map_spec@, path@),
                None => fails_with(action, "invalid cache path"@, false),
            }
        },
        ExtractEvent::Ran(RunOutcome::TimedOut) => fails_with(
            action,
            "subtitle extraction timed out"@,
            true,
        ),
        ExtractEvent::Ran(RunOutcome::NotStarted(e)) => fails_with(
            action,
            "failed to run ffmpeg: "@ + e@,
            false,
        ),
        ExtractEvent::Ran(RunOutcome::Exited { success, stderr }) => if success {
            action is ReadOutput
        } else {
            fails_with(
                action,
                "ffmpeg subtitle extraction failed: "@ + text_of_bytes(stderr@),
                false,
            )
        },
        ExtractEvent::Output(Err(e)) => fails_with(
            action,
            "failed to read cached subtitle: "@ + e@,
            false,
        ),
        ExtractEvent::Output(Ok(bytes)) => if is_blank_bytes(bytes@) {
            fails_with(action, "subtitle extraction produced empty output"@, true)
        } else {
            action is Ready
        },
    }
}

fn fail(message: &str, detail: &str, remove: bool) -> (r: ExtractAction)
    ensures
        fails_with(r, message@ + detail@, remove),
{
    let mut text: String = message.to_owned();
    text.append(detail);
    ExtractAction::Fail { message: text, remove }
}

fn fail_plainly(message: &str, remove: bool) -> (r: ExtractAction)
    ensures
        fails_with(r, message@, remove),
{
    ExtractAction::Fail { message: message.to_owned(), remove }
}

/// Extracts one subtitle stream into the cache: from what happened to what is
/// to be done next.
pub fn extract_subtitle_to_cache(job: &ExtractJob, event: ExtractEvent) -> (action: ExtractAction)
    ensures
        extract_step(*job, event, action),
{
    match event {
        ExtractEvent::NoCacheDir(e) => fail(
            "failed to create subtitle cache dir: ",
            e.as_str(),
            false,
        ),
        ExtractEvent::Cache(content) => {
            if cache_is_good(&content) {
                ExtractAction::Ready
            } else {
                match &job.cache_path {
                    Some(path) => ExtractAction::Run(
                        write_extract_args(
                            job.input_url.as_str(),
                            job.map_spec.as_str(),
                            path.as_str(),
                        ),
                    ),
                    None => fail_plainly("invalid cache path", false),
                }
            }
        },
        ExtractEvent::Ran(RunOutcome::TimedOut) => fail_plainly(
            "subtitle extraction timed out",
            true,
        ),
        ExtractEvent::Ran(RunOutcome::NotStarted(e)) => fail(
            "failed to run ffmpeg: ",
            e.as_str(),
            false,
        ),
        ExtractEvent::Ran(RunOutcome::Exited { success, stderr }) => {
            if success {
                ExtractAction::ReadOutput
            } else {
                let said: String = bytes_to_text(&stderr);
                fail("ffmpeg subtitle extraction failed: ", said.as_str(), false)
            }
        },
        ExtractEvent::Output(Err(e)) => fail("failed to read cached subtitle: ", e.as_str(), false),
        ExtractEvent::Output(Ok(bytes)) => {
            if blank_bytes(&bytes) {
                fail_plainly("subtitle extraction produced empty output", true)
            } else {
                ExtractAction::Ready
            }
        },
    }
}

// ---------------------------------------------------------------------------
// All subtitles of a source
// ---------------------------------------------------------------------------

/// The cache file of one of several subtitle streams.
#[derive(Debug)]
pub struct CacheFile {
    pub stream_index: i64,
    /// Its path, where that is valid Unicode.
    pub path: Option<String>,
    /// What it holds; `None` where it is not there or cannot be read.
    pub content: Option<Vec<u8>>,
}

/// The arguments for one output of an ffmpeg run with several.
pub open spec fn output_args(stream_index: int, path: Seq<char>) -> Seq<Seq<char>> {
    seq![
        "-map"@,
        "0:"@ + decimal(stream_index),
        "-an"@,
        "-vn"@,
        "-c:s"@,
        "srt"@,
        "-flush_packets"@,
        "1"@,
        path,
    ]
}

/// The outputs of an ffmpeg run for the files that are not cached yet. A file
/// whose path is not valid Unicode gets none.
pub open spec fn missing_outputs(files: Seq<CacheFile>) -> Seq<Seq<char>>
    decreases files.len(),
{
    if files.len() == 0 {
        Seq::empty()
    } else {
        let file = files.last();
        missing_outputs(files.drop_last()) + (if is_cached(file.content) {
            Seq::empty()
        } else {
            match file.path {
                Some(path) => output_args(file.stream_index as int, path@),
                None => Seq::empty(),
            }
        })
    }
}

/// The indices of the streams whose files are not cached yet.
pub open spec fn missing_indices(files: Seq<CacheFile>) -> Seq<i64>
    decreases files.len(),
{
    if files.len() == 0 {
        Seq::empty()
    } else if is_cached(files.last().content) {
        missing_indices(files.drop_last())
    } else {
        missing_indices(files.drop_last()).push(files.last().stream_index)
    }
}

/// The arguments of an ffmpeg run before its outputs.
pub open spec fn input_args(input: Seq<char>) -> Seq<Seq<char>> {
    seq![
        "-y"@,
        "-nostdin"@,
        "-probesize"@,
        "500000"@,
        "-analyzeduration"@,
        "0"@,
        "-i"@,
        input,
    ]
}

/// An ffmpeg run that fills the cache for several streams.
#[derive(Debug)]
pub struct BatchRun {
    pub indices: Vec<i64>,
    pub args: Vec<String>,
}

/// Extracts all subtitles of a source that are not cached yet in one ffmpeg run;
/// `None` where all of them are cached.
pub fn pre_extract_all_subtitles_to_cache(input_url: &str, files: &Vec<CacheFile>) -> (r: Option<
    BatchRun,
>)
    ensures
        match r {
            Some(run) => {
                &&& missing_indices(files@).len() > 0
                &&& run.indices@ == missing_indices(files@)
                &&& texts(run.args@) == input_args(input_url@) + missing_outputs(files@)
            },
            None => missing_indices(files@).len() == 0,
        },
{
    let mut args: Vec<String> = Vec::new();
    assert(texts(args@) =~= Seq::<Seq<char>>::empty());
    push_text(&mut args, "-y");
    push_text(&mut args, "-nostdin");
    push_text(&mut args, "-probesize");
    push_text(&mut args, "500000");
    push_text(&mut args, "-analyzeduration");
    push_text(&mut args, "0");
    push_text(&mut args, "-i");
    push_text(&mut args, input_url);
    assert(texts(args@) =~= input_args(input_url@));
    let mut indices: Vec<i64> = Vec::new();
    let mut k: usize = 0;
    assert(files@.take(0) =~= Seq::<CacheFile>::empty());
    assert(texts(args@) =~= input_args(input_url@) + missing_outputs(files@.take(0)));
    while k < files.len()
        invariant
            k <= files.len(),
            indices@ == missing_indices(files@.take(k as int)),
            texts(args@) == input_args(input_url@) + missing_outputs(files@.take(k as int)),
        decreases files.len() - k,
    {
        let file: &CacheFile = &files[k];
        proof {
            assert(files@.take(k + 1).drop_last() =~= files@.take(k as int));
            assert(files@.take(k + 1).last() == *file);
        }
        let ghost before = texts(args@);
        if !cache_is_good(&file.content) {
            indices.push(file.stream_index);
            match &file.path {
                Some(path) => {
                    let mut map_spec: String = "0:".to_owned();
                    map_spec.append(decimal_i64(file.stream_index).as_str());
                    push_text(&mut args, "-map");
                    push_text(&mut args, map_spec.as_str());
                    push_text(&mut args, "-an");
                    push_text(&mut args, "-vn");
                    push_text(&mut args, "-c:s");
                    push_text(&mut args, "srt");
                    push_text(&mut args, "-flush_packets");
                    push_text(&mut args, "1");
                    push_text(&mut args, path.as_str());
                    assert(texts(args@) =~= before + output_args(
                        file.stream_index as int,
                        path@,
                    ));
                },
                None => {},
            }
        }
        assert(texts(args@) =~= input_args(input_url@) + missing_outputs(files@.take(k + 1)));
        k += 1;
    }
    assert(files@.take(k as int) =~= files@);
    if indices.is_empty() {
        None
    } else {
        Some(BatchRun { indices, args })
    }
}

/// Whether a request for a subtitle waits for a batch extraction: the subtitle
/// is not cached and a batch of its item is under way. `batch_done` is what the
/// batch says of itself; `None` where there is no batch.
pub fn should_wait_for_batch(cached: bool, batch_done: Option<bool>) -> (r: bool)
    ensures
        r == (!cached && batch_done == Some(false)),
{
    if cached {
        return false;
    }
    match batch_done {
        Some(done) => !done,
        None => false,
    }
}

// ---------------------------------------------------------------------------
// Laws
// ---------------------------------------------------------------------------

/// White space in bytes is white space in text.
proof fn lemma_blank_bytes(bytes: Seq<u8>)
    requires
        is_blank_bytes(bytes),
    ensures
        valid_utf8(bytes),
        is_blank(decode_utf8(bytes)),
    decreases bytes.len(),
{
    if bytes.len() > 0 {
        let b = bytes[0];
        assert(is_space_byte(b));
        assert(b & 0x7f == b) by (bit_vector)
            requires
                b == 0x20 || b == 0x9 || b == 0xa || b == 0xc || b == 0xd,
        ;
        let rest = pop_first_scalar(bytes);
        assert(rest =~= bytes.skip(1));
        assert forall|i: int| 0 <= i < rest.len() implies is_space_byte(#[trigger] rest[i]) by {
            assert(rest[i] == bytes[i + 1]);
        }
        lemma_blank_bytes(rest);
        let text = decode_utf8(bytes);
        assert(text == seq![decode_first_scalar(bytes) as char] + decode_utf8(rest));
        assert forall|i: int| 0 <= i < text.len() implies is_white_space(#[trigger] text[i]) by {
            if i > 0 {
                assert(text[i] == decode_utf8(rest)[i - 1]);
            }
        }
    }
}

/// Output that an extraction refuses would be no cache hit either.
pub proof fn refused_output_is_no_cache_hit(bytes: Vec<u8>)
    requires
        is_blank_bytes(bytes@),
    ensures
        !is_cached(Some(bytes)),
{
    lemma_blank_bytes(bytes@);
}

/// An extraction that succeeds leaves a file with more than white space in it.
pub proof fn ready_files_hold_text(job: ExtractJob, event: ExtractEvent, action: ExtractAction)
    requires
        extract_step(job, event, action),
        action is Ready,
    ensures
        match event {
            ExtractEvent::Cache(content) => is_cached(content),
            ExtractEvent::Output(Ok(bytes)) => !is_blank_bytes(bytes@),
            _ => false,
        },
{
}

/// A good cache file is never extracted again.
pub proof fn cached_subtitles_are_kept(job: ExtractJob, content: Vec<u8>, action: ExtractAction)
    requires
        is_cached(Some(content)),
        extract_step(job, ExtractEvent::Cache(Some(content)), action),
    ensures
        action is Ready,
{
}

/// A run with several outputs extracts exactly the streams that are not cached,
/// in their order.
pub proof fn batches_extract_what_is_missing(files: Seq<CacheFile>, index: i64)
    ensures
        missing_indices(files).contains(index) <==> exists|k: int|
            0 <= k < files.len() && (#[trigger] files[k]).stream_index == index && !is_cached(
                files[k].content,
            ),
    decreases files.len(),
{
    if files.len() > 0 {
        let head = files.drop_last();
        let last = files.last();
        let before = missing_indices(head);
        let all = missing_indices(files);
        batches_extract_what_is_missing(head, index);
        assert(files[files.len() - 1] == last);
        if before.contains(index) {
            let k = choose|k: int|
                0 <= k < head.len() && (#[trigger] head[k]).stream_index == index && !is_cached(
                    head[k].content,
                );
            assert(files[k] == head[k]);
            let m = choose|m: int| 0 <= m < before.len() && before[m] == index;
            assert(all[m] == index);
        }
        if !is_cached(last.content) && last.stream_index == index {
            assert(all[before.len() as int] == index);
        }
        if exists|k: int|
            0 <= k < files.len() && (#[trigger] files[k]).stream_index == index && !is_cached(
                files[k].content,
            ) {
            let k = choose|k: int|
                0 <= k < files.len() && (#[trigger] files[k]).stream_index == index && !is_cached(
                    files[k].content,
                );
            if k < head.len() {
                assert(head[k] == files[k]);
            }
        }
        if all.contains(index) && !before.contains(index) {
            let m = choose|m: int| 0 <= m < all.len() && all[m] == index;
            if m < before.len() {
                assert(before[m] == index);
            }
        }
    }
}

/// A cache file is named after the item and the index of the stream.
pub proof fn cache_files_are_named_after_the_stream(item_id: MediaId, stream_index: i64, r: String)
    requires
        call_ensures(cache_file_name, (item_id, stream_index), r),
    ensures
        r@ == item_id.hyphenated() + "_"@ + decimal(stream_index as int) + ".srt"@,
{
}

/// Bytes that are valid UTF-8 are read as the text that they are.
pub proof fn valid_bytes_are_read_as_they_are(bytes: &Vec<u8>, r: String)
    requires
        valid_utf8(bytes@),
        call_ensures(bytes_to_text, (bytes,), r),
    ensures
        r@ == decode_utf8(bytes@),
{
}

/// A cache file is good exactly if it is there and a character in it is no white
/// space.
pub proof fn good_files_hold_more_than_space(content: &Option<Vec<u8>>, r: bool)
    requires
        call_ensures(cache_is_good, (content,), r),
    ensures
        *content is None ==> !r,
        *content matches Some(bytes) ==> (r <==> exists|i: int|
            0 <= i < text_of_bytes(bytes@).len() && !is_white_space(
                #[trigger] text_of_bytes(bytes@)[i],
            )),
{
}

/// Bytes are blank exactly if each is a space, a tab, a line feed, a form feed or a
/// carriage return.
pub proof fn blank_bytes_are_spaces_and_breaks(bytes: &Vec<u8>, r: bool)
    requires
        call_ensures(blank_bytes, (bytes,), r),
    ensures
        r <==> forall|i: int|
            0 <= i < bytes@.len() ==> (#[trigger] bytes@[i] == 32 || bytes@[i] == 9 || bytes@[i]
                == 10 || bytes@[i] == 12 || bytes@[i] == 13),
{
    if !r {
        let i = choose|i: int| 0 <= i < bytes@.len() && !is_space_byte(#[trigger] bytes@[i]);
        assert(bytes@[i] != 32);
    }
}

/// A subtitle that is not cached is extracted: ffmpeg reads the source of the job,
/// takes the stream of the job alone, and writes it as SRT to the cache file. It
/// answers nothing and overwrites what is there.
pub proof fn extractions_run_on_the_job(
    job: &ExtractJob,
    content: Option<Vec<u8>>,
    action: ExtractAction,
)
    requires
        !is_cached(content),
        call_ensures(extract_subtitle_to_cache, (job, ExtractEvent::Cache(content)), action),
    ensures
        job.cache_path is None ==> (action matches ExtractAction::Fail { message, remove }
            && message@ == "invalid cache path"@ && !remove),
        job.cache_path matches Some(path) ==> (action matches ExtractAction::Run(args) && {
            &&& args@.len() == 14
            &&& args@[0]@ == "-y"@ && args@[1]@ == "-nostdin"@ && args@[2]@ == "-copyts"@
            &&& args@[3]@ == "-i"@ && args@[4]@ == job.input_url@
            &&& args@[5]@ == "-map"@ && args@[6]@ == job.map_spec@
            &&& args@[7]@ == "-an"@ && args@[8]@ == "-vn"@
            &&& args@[9]@ == "-c:s"@ && args@[10]@ == "srt"@
            &&& args@[11]@ == "-f"@ && args@[12]@ == "srt"@
            &&& args@[13]@ == path@
        }),
{
    if let Some(path) = job.cache_path {
        let args = action->Run_0;
        let said = texts(args@);
        assert(said.len() == 14);
        assert forall|k: int| 0 <= k < 14 implies said[k] == #[trigger] args@[k]@ by {}
        assert(said[0] == args@[0]@ && said[1] == args@[1]@ && said[2] == args@[2]@);
        assert(said[3] == args@[3]@ && said[4] == args@[4]@ && said[5] == args@[5]@);
        assert(said[6] == args@[6]@ && said[7] == args@[7]@ && said[8] == args@[8]@);
        assert(said[9] == args@[9]@ && said[10] == args@[10]@ && said[11] == args@[11]@);
        assert(said[12] == args@[12]@ && said[13] == args@[13]@);
    }
}

/// An extraction ends well with a good cache file or with output that is not blank,
/// and in no other way. What a run that did not end left behind, and blank output,
/// is taken away.
pub proof fn extractions_tell_why_they_fail(
    job: &ExtractJob,
    event: ExtractEvent,
    action: ExtractAction,
)
    requires
        call_ensures(extract_subtitle_to_cache, (job, event), action),
    ensures
        event matches ExtractEvent::NoCacheDir(e) ==> (action matches ExtractAction::Fail {
            message,
            remove,
        } && message@ == "failed to create subtitle cache dir: "@ + e@ && !remove),
        event matches ExtractEvent::Ran(RunOutcome::TimedOut) ==> (
        action matches ExtractAction::Fail { message, remove } && message@
            == "subtitle extraction timed out"@ && remove),
        event matches ExtractEvent::Ran(RunOutcome::NotStarted(e)) ==> (
        action matches ExtractAction::Fail { message, remove } && message@
            == "failed to run ffmpeg: "@ + e@ && !remove),
        event matches ExtractEvent::Ran(RunOutcome::Exited { success: false, stderr }) ==> (
        action matches ExtractAction::Fail { message, remove } && message@
            == "ffmpeg subtitle extraction failed: "@ + text_of_bytes(stderr@) && !remove),
        event matches ExtractEvent::Ran(RunOutcome::Exited { success: true, stderr })
            ==> action is ReadOutput,
        event matches ExtractEvent::Output(Err(e)) ==> (action matches ExtractAction::Fail {
            message,
            remove,
        } && message@ == "failed to read cached subtitle: "@ + e@ && !remove),
        event matches ExtractEvent::Output(Ok(bytes)) ==> is_blank_bytes(bytes@) ==> (
        action matches ExtractAction::Fail { message, remove } && message@
            == "subtitle extraction produced empty output"@ && remove),
        event matches ExtractEvent::Output(Ok(bytes)) ==> !is_blank_bytes(bytes@)
            ==> action is Ready,
        event matches ExtractEvent::Cache(content) ==> is_cached(content) ==> action is Ready,
{
}

/// One file adds to a run exactly if it is not cached, and then an output of its
/// own: the stream with its index, as SRT, flushed packet by packet, to its path.
pub proof fn missing_files_get_an_output(file: CacheFile)
    ensures
        is_cached(file.content) ==> missing_outputs(seq![file]).len() == 0 && missing_indices(
            seq![file],
        ).len() == 0,
        !is_cached(file.content) ==> missing_indices(seq![file]) == seq![file.stream_index],
        !is_cached(file.content) && file.path is None ==> missing_outputs(seq![file]).len() == 0,
        !is_cached(file.content) ==> (file.path matches Some(path) ==> {
            let out = missing_outputs(seq![file]);
            &&& out.len() == 9
            &&& out[0] == "-map"@ && out[1] == "0:"@ + decimal(file.stream_index as int)
            &&& out[2] == "-an"@ && out[3] == "-vn"@
            &&& out[4] == "-c:s"@ && out[5] == "srt"@
            &&& out[6] == "-flush_packets"@ && out[7] == "1"@
            &&& out[8] == path@
        }),
{
    reveal_with_fuel(missing_outputs, 2);
    reveal_with_fuel(missing_indices, 2);
    assert(seq![file].drop_last() =~= Seq::<CacheFile>::empty());
    assert(seq![file].last() == file);
    assert(Seq::<i64>::empty().push(file.stream_index) =~= seq![file.stream_index]);
    if let Some(path) = file.path {
        assert(Seq::<Seq<char>>::empty() + output_args(file.stream_index as int, path@)
            =~= output_args(file.stream_index as int, path@));
    }
}

/// What several files add to a run is what each adds, in their order.
pub proof fn runs_take_the_files_in_order(a: Seq<CacheFile>, b: Seq<CacheFile>)
    ensures
        missing_outputs(a + b) == missing_outputs(a) + missing_outputs(b),
        missing_indices(a + b) == missing_indices(a) + missing_indices(b),
    decreases b.len(),
{
    if b.len() == 0 {
        assert(a + b =~= a);
        assert(missing_outputs(b) =~= Seq::<Seq<char>>::empty());
        assert(missing_indices(b) =~= Seq::<i64>::empty());
        assert(missing_outputs(a) + Seq::<Seq<char>>::empty() =~= missing_outputs(a));
        assert(missing_indices(a) + Seq::<i64>::empty() =~= missing_indices(a));
    } else {
        let head = b.drop_last();
        runs_take_the_files_in_order(a, head);
        assert((a + b).drop_last() =~= a + head);
        assert((a + b).last() == b.last());
        assert(missing_outputs(a + b) =~= missing_outputs(a) + missing_outputs(b));
        assert(missing_indices(a + b) =~= missing_indices(a) + missing_indices(b));
    }
}

/// A run with several outputs reads the source once, without a long look at it, and
/// has the outputs of all files that are not cached. Where all are cached there is
/// none.
pub proof fn runs_are_for_what_is_missing(
    input_url: &str,
    files: &Vec<CacheFile>,
    r: Option<BatchRun>,
)
    requires
        call_ensures(pre_extract_all_subtitles_to_cache, (input_url, files), r),
    ensures
        r is None <==> forall|k: int|
            0 <= k < files@.len() ==> is_cached((#[trigger] files@[k]).content),
        r matches Some(run) ==> {
            &&& run.indices@ == missing_indices(files@)
            &&& run.args@.len() == 8 + missing_outputs(files@).len()
            &&& run.args@[0]@ == "-y"@ && run.args@[1]@ == "-nostdin"@
            &&& run.args@[2]@ == "-probesize"@ && run.args@[3]@ == "500000"@
            &&& run.args@[4]@ == "-analyzeduration"@ && run.args@[5]@ == "0"@
            &&& run.args@[6]@ == "-i"@ && run.args@[7]@ == input_url@
            &&& forall|k: int|
                8 <= k < run.args@.len() ==> (#[trigger] run.args@[k])@ == missing_outputs(files@)[k
                    - 8]
        },
{
    if let Some(run) = r {
        let said = texts(run.args@);
        assert(said == input_args(input_url@) + missing_outputs(files@));
        assert(said.len() == run.args@.len());
        assert(input_args(input_url@).len() == 8);
        assert(said[0] == run.args@[0]@ && said[1] == run.args@[1]@);
        assert(said[2] == run.args@[2]@ && said[3] == run.args@[3]@);
        assert(said[4] == run.args@[4]@ && said[5] == run.args@[5]@);
        assert(said[6] == run.args@[6]@ && said[7] == run.args@[7]@);
        assert forall|k: int| 8 <= k < run.args@.len() implies (#[trigger] run.args@[k])@
            == missing_outputs(files@)[k - 8] by {
            assert(said[k] == run.args@[k]@);
        }
        let index = missing_indices(files@)[0];
        batches_extract_what_is_missing(files@, index);
        assert(missing_indices(files@).contains(index));
    } else {
        assert forall|k: int| 0 <= k < files@.len() implies is_cached(
            (#[trigger] files@[k]).content,
        ) by {
            batches_extract_what_is_missing(files@, files@[k].stream_index);
        }
    }
}

/// A request waits for a batch exactly if its subtitle is not cached and a batch is
/// there that is not done.
pub proof fn only_unfinished_batches_are_waited_for(
    cached: bool,
    batch_done: Option<bool>,
    r: bool,
)
    requires
        call_ensures(should_wait_for_batch, (cached, batch_done), r),
    ensures
        cached ==> !r,
        batch_done is None ==> !r,
        batch_done matches Some(done) ==> !cached ==> r == !done,
{
}

} // verus!
