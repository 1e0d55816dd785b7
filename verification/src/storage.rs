//! Where everything lies on disk, and what is done to uploaded files.

use ncmdump::Ncmdump;
use std::io::Cursor;
use vstd::prelude::*;

use crate::paths::{join, path_extension, path_file_name, with_extension};
use crate::text::{chars_of, eq_ignore_ascii_case, joined, same, trim};

verus! {

// ---------- uploaded file names ----------

/// The characters that a stored file name keeps.
pub open spec fn is_safe(c: char) -> bool {
    ||| '0' <= c <= '9'
    ||| 'A' <= c <= 'Z'
    ||| 'a' <= c <= 'z'
    ||| c == '.'
    ||| c == '-'
    ||| c == '_'
}

/// The last component of the path that a client has sent.
pub open spec fn client_name(name: Seq<char>) -> Seq<char> {
    match crate::paths::file_name(name) {
        Some(base) => base,
        None => "input"@,
    }
}

/// A character of a stored file name.
pub open spec fn safe_char(c: char) -> char {
    if is_safe(c) {
        c
    } else {
        '_'
    }
}

/// The stored file name for a name that a client has sent.
pub open spec fn safe_name(name: Seq<char>) -> Seq<char> {
    client_name(name).map_values(|c: char| safe_char(c))
}

/// The stored file name for a name that a client has sent: its last component,
/// with an underscore for every unusual character.
pub fn sanitize_filename(name: &str) -> (r: String)
    ensures
        r@ == safe_name(name@),
{
    let base: String = match path_file_name(name) {
        Some(base) => base,
        None => "input".to_owned(),
    };
    let chars: Vec<char> = chars_of(base.as_str());
    let mut out: String = String::new();
    let mut i: usize = 0;
    while i < chars.len()
        invariant
            i <= chars.len(),
            chars@ == client_name(name@),
            out@ == chars@.take(i as int).map_values(|c: char| safe_char(c)),
        decreases chars.len() - i,
    {
        let c: char = chars[i];
        let kept: bool = ('0' <= c && c <= '9') || ('A' <= c && c <= 'Z') || ('a' <= c && c <= 'z')
            || c == '.' || c == '-' || c == '_';
        out.push(if kept {
            c
        } else {
            '_'
        });
        proof {
            assert(chars@.take(i + 1).map_values(|c: char| safe_char(c)) =~= chars@.take(
                i as int,
            ).map_values(|c: char| safe_char(c)).push(safe_char(c)));
        }
        i = i + 1;
    }
    proof {
        assert(chars@.take(i as int) =~= chars@);
    }
    out
}

// ---------- encrypted uploads ----------

/// The bytes that an encrypted music file begins with.
pub open spec fn ncm_magic() -> Seq<u8> {
    seq![0x43u8, 0x54u8, 0x45u8, 0x4Eu8, 0x46u8, 0x44u8, 0x41u8, 0x4Du8]
}

/// Whether bytes have the header of an encrypted music file.
pub open spec fn has_ncm_header(bytes: Seq<u8>) -> bool {
    bytes.len() >= 10 && bytes.take(8) == ncm_magic()
}

/// The length of the key area that the header announces.
pub open spec fn ncm_key_length(bytes: Seq<u8>) -> int {
    bytes[10] + bytes[11] * 0x100 + bytes[12] * 0x1_0000 + bytes[13] * 0x100_0000
}

/// Whether opening the file is known to end: with a key area of one or two
/// cipher blocks the decrypted key may be shorter than the fixed prefix that is
/// cut off it.
pub open spec fn ncm_key_is_long_enough(bytes: Seq<u8>) -> bool {
    ||| !has_ncm_header(bytes)
    ||| bytes.len() < 14
    ||| bytes.len() < 14 + ncm_key_length(bytes)
    ||| (ncm_key_length(bytes) != 16 && ncm_key_length(bytes) != 32)
}

/// What the `ncmdump` crate makes of an encrypted music file: the music, or the
/// reason why the file cannot be opened.
pub uninterp spec fn ncm_read(bytes: Seq<u8>) -> Result<Seq<u8>, Seq<char>>;

/// `Ncmdump::from_reader` over the bytes, then `Ncmdump::get_data`: the
/// decrypted music, or the debug text of the error. Opening fails on bytes
/// without the header; reading the music from memory cannot fail.
#[verifier::external_body]
fn ncm_decrypt(bytes: Vec<u8>) -> (r: Result<Vec<u8>, String>)
    requires
        ncm_key_is_long_enough(bytes@),
    ensures
        match r {
            Ok(music) => ncm_read(bytes@) == Ok::<Seq<u8>, Seq<char>>(music@),
            Err(reason) => ncm_read(bytes@) == Err::<Seq<u8>, Seq<char>>(reason@),
        },
        !has_ncm_header(bytes@) ==> r is Err && r->Err_0@ == "InvalidFileType"@,
{
    match Ncmdump::from_reader(Cursor::new(bytes)) {
        Ok(mut file) => file.get_data().map_err(|e| format!("{:?}", e)),
        Err(e) => Err(format!("{:?}", e)),
    }
}

/// Whether the bytes at the start of `bytes` are those of `prefix`.
pub open spec fn bytes_begin_with(bytes: Seq<u8>, prefix: Seq<u8>) -> bool {
    prefix.len() <= bytes.len() && bytes.take(prefix.len() as int) == prefix
}

fn bytes_start_with(bytes: &Vec<u8>, prefix: &Vec<u8>) -> (r: bool)
    ensures
        r == bytes_begin_with(bytes@, prefix@),
{
    if prefix.len() > bytes.len() {
        return false;
    }
    let mut i: usize = 0;
    while i < prefix.len()
        invariant
            i <= prefix.len() <= bytes.len(),
            forall|j: int| 0 <= j < i ==> bytes@[j] == prefix@[j],
        decreases prefix.len() - i,
    {
        if bytes[i] != prefix[i] {
            proof {
                assert(bytes@.take(prefix@.len() as int)[i as int] != prefix@[i as int]);
            }
            return false;
        }
        i = i + 1;
    }
    proof {
        assert(bytes@.take(prefix@.len() as int) =~= prefix@);
    }
    true
}

/// Whether an encrypted music file can be handed to the decoder.
pub fn ncm_is_decodable(bytes: &Vec<u8>) -> (r: bool)
    ensures
        r == ncm_key_is_long_enough(bytes@),
{
    let magic: Vec<u8> = vec![0x43u8, 0x54u8, 0x45u8, 0x4Eu8, 0x46u8, 0x44u8, 0x41u8, 0x4Du8];
    proof {
        assert(magic@ =~= ncm_magic());
    }
    if bytes.len() < 14 || !bytes_start_with(bytes, &magic) {
        return true;
    }
    let length: u64 = bytes[10] as u64 + bytes[11] as u64 * 0x100 + bytes[12] as u64 * 0x1_0000
        + bytes[13] as u64 * 0x100_0000;
    (bytes.len() as u64) < 14 + length || (length != 16 && length != 32)
}

/// The file extension for decrypted music, from its first bytes.
pub open spec fn audio_ext(data: Seq<u8>) -> Seq<char> {
    if bytes_begin_with(data, seq![0x66u8, 0x4Cu8, 0x61u8, 0x43u8]) {
        "flac"@
    } else if bytes_begin_with(data, seq![0x49u8, 0x44u8, 0x33u8]) || bytes_begin_with(
        data,
        seq![0xFFu8, 0xFBu8],
    ) {
        "mp3"@
    } else if bytes_begin_with(data, seq![0x4Fu8, 0x67u8, 0x67u8, 0x53u8]) {
        "ogg"@
    } else {
        "mp3"@
    }
}

/// The file extension for decrypted music, from its first bytes.
pub fn detect_audio_ext(data: &Vec<u8>) -> (r: &'static str)
    ensures
        r@ == audio_ext(data@),
{
    let flac: Vec<u8> = vec![0x66u8, 0x4Cu8, 0x61u8, 0x43u8];
    let id3: Vec<u8> = vec![0x49u8, 0x44u8, 0x33u8];
    let frame: Vec<u8> = vec![0xFFu8, 0xFBu8];
    let ogg: Vec<u8> = vec![0x4Fu8, 0x67u8, 0x67u8, 0x53u8];
    proof {
        assert(flac@ =~= seq![0x66u8, 0x4Cu8, 0x61u8, 0x43u8]);
        assert(id3@ =~= seq![0x49u8, 0x44u8, 0x33u8]);
        assert(frame@ =~= seq![0xFFu8, 0xFBu8]);
        assert(ogg@ =~= seq![0x4Fu8, 0x67u8, 0x67u8, 0x53u8]);
    }
    if bytes_start_with(data, &flac) {
        "flac"
    } else if bytes_start_with(data, &id3) || bytes_start_with(data, &frame) {
        "mp3"
    } else if bytes_start_with(data, &ogg) {
        "ogg"
    } else {
        "mp3"
    }
}

/// Whether a path has the extension of an encrypted music file, in any case.
pub open spec fn is_ncm_path(path: Seq<char>) -> bool {
    match crate::paths::extension(path) {
        Some(ext) => crate::text::same_ignoring_case(ext, "ncm"@),
        None => false,
    }
}

/// Whether a path has the extension of an encrypted music file.
pub fn is_ncm(input_path: &str) -> (r: bool)
    ensures
        r == is_ncm_path(input_path@),
{
    match path_extension(input_path) {
        Some(ext) => eq_ignore_ascii_case(ext.as_str(), "ncm"),
        None => false,
    }
}

/// Where the music decrypted from `input_path` is written.
pub open spec fn decoded_path(input_path: Seq<char>, music: Seq<u8>) -> Seq<char> {
    crate::paths::path_with_extension(input_path, "decoded."@ + audio_ext(music))
}

/// Where the music decrypted from `input_path` is written: beside it, with an
/// extension that tells what was found.
pub fn decoded_file(input_path: &str, music: &Vec<u8>) -> (r: String)
    ensures
        r@ == decoded_path(input_path@, music@),
{
    let ext: String = joined("decoded.", detect_audio_ext(music));
    with_extension(input_path, ext.as_str())
}

/// An input file as the pipelines read it.
pub struct DecodedInput {
    pub path: String,
    /// The music to write to `path`; none where the upload itself is read.
    pub music: Option<Vec<u8>>,
}

/// What becomes of an uploaded file, given what decrypting it gives.
pub open spec fn decoded_input(
    input_path: Seq<char>,
    read: Result<Seq<u8>, Seq<char>>,
) -> Result<(Seq<char>, Option<Seq<u8>>), Seq<char>> {
    if !is_ncm_path(input_path) {
        Ok((input_path, None))
    } else {
        match read {
            Ok(music) => Ok((decoded_path(input_path, music), Some(music))),
            Err(reason) => Err("ncm open: "@ + reason),
        }
    }
}

/// What `r` holds, as mathematical values.
pub open spec fn decoded_input_view(r: Result<DecodedInput, String>) -> Result<
    (Seq<char>, Option<Seq<u8>>),
    Seq<char>,
> {
    match r {
        Ok(input) => Ok(
            (
                input.path@,
                match input.music {
                    Some(music) => Some(music@),
                    None => None,
                },
            ),
        ),
        Err(message) => Err(message@),
    }
}

/// The input of a job from the outcome of decrypting its encrypted upload.
pub fn decoded_from(input_path: &str, read: Result<Vec<u8>, String>) -> (r: Result<
    DecodedInput,
    String,
>)
    requires
        is_ncm_path(input_path@),
    ensures
        decoded_input_view(r) == decoded_input(
            input_path@,
            match read {
                Ok(music) => Ok(music@),
                Err(reason) => Err(reason@),
            },
        ),
{
    match read {
        Ok(music) => {
            let path: String = decoded_file(input_path, &music);
            Ok(DecodedInput { path, music: Some(music) })
        },
        Err(reason) => Err(joined("ncm open: ", reason.as_str())),
    }
}

/// The input of a job: the upload as it is, or decrypted where its name says
/// that it is encrypted music.
pub fn maybe_decode_ncm(input_path: &str, bytes: Vec<u8>) -> (r: Result<DecodedInput, String>)
    requires
        is_ncm_path(input_path@) ==> ncm_key_is_long_enough(bytes@),
    ensures
        decoded_input_view(r) == decoded_input(input_path@, ncm_read(bytes@)),
        is_ncm_path(input_path@) && !has_ncm_header(bytes@) ==> (r matches Err(message)
            && message@ == "ncm open: "@ + "InvalidFileType"@),
{
    if !is_ncm(input_path) {
        return Ok(DecodedInput { path: input_path.to_owned(), music: None });
    }
    decoded_from(input_path, ncm_decrypt(bytes))
}

// ---------- the output directory ----------

/// The version of the output directory's layout. It changes with every
/// incompatible change to directories or database; an older directory is wiped
/// at start-up.
pub const LAYOUT_VERSION: &'static str = "1";

/// The places that the program works with.
pub struct Paths {
    pub output_dir: String,
    pub apps_dir: String,
    pub db_path: String,
    pub checkpoints_dir: String,
}

/// The places that the program works with, as mathematical values.
pub struct PathsView {
    pub output_dir: Seq<char>,
    pub apps_dir: Seq<char>,
    pub db_path: Seq<char>,
    pub checkpoints_dir: Seq<char>,
}

impl Clone for Paths {
    fn clone(&self) -> (r: Self)
        ensures
            r@ == self@,
    {
        Paths {
            output_dir: self.output_dir.clone(),
            apps_dir: self.apps_dir.clone(),
            db_path: self.db_path.clone(),
            checkpoints_dir: self.checkpoints_dir.clone(),
        }
    }
}

impl View for Paths {
    type V = PathsView;

    open spec fn view(&self) -> PathsView {
        PathsView {
            output_dir: self.output_dir@,
            apps_dir: self.apps_dir@,
            db_path: self.db_path@,
            checkpoints_dir: self.checkpoints_dir@,
        }
    }
}

/// The places below an output directory and a checkpoint directory.
pub open spec fn places(output_dir: Seq<char>, checkpoints_dir: Seq<char>) -> PathsView {
    let apps_dir = crate::paths::path_join(output_dir, "apps"@);
    PathsView {
        output_dir,
        apps_dir,
        db_path: crate::paths::path_join(apps_dir, "jobs.sqlite"@),
        checkpoints_dir,
    }
}

/// What is done to the file system.
#[derive(Clone, Copy, PartialEq, Eq, Debug, Structural)]
pub enum FsOp {
    /// Create a directory and those above it.
    CreateDir,
    /// Remove a directory with all that is in it.
    RemoveDir,
    /// Write a file.
    WriteFile,
}

/// What a file gets.
pub enum Contents {
    /// The action writes no file.
    Nothing,
    Text(String),
    Bytes(Vec<u8>),
}

/// What a file gets, as mathematical values.
pub enum ContentsView {
    Nothing,
    Text(Seq<char>),
    Bytes(Seq<u8>),
}

impl View for Contents {
    type V = ContentsView;

    open spec fn view(&self) -> ContentsView {
        match self {
            Contents::Nothing => ContentsView::Nothing,
            Contents::Text(text) => ContentsView::Text(text@),
            Contents::Bytes(bytes) => ContentsView::Bytes(bytes@),
        }
    }
}

/// One thing to do to the file system, and what to say if it fails.
pub struct FsAction {
    pub op: FsOp,
    pub path: String,
    pub contents: Contents,
    pub context: String,
}

/// One thing to do to the file system, as mathematical values.
pub struct FsActionView {
    pub op: FsOp,
    pub path: Seq<char>,
    pub contents: ContentsView,
    pub context: Seq<char>,
}

impl View for FsAction {
    type V = FsActionView;

    open spec fn view(&self) -> FsActionView {
        FsActionView {
            op: self.op,
            path: self.path@,
            contents: self.contents@,
            context: self.context@,
        }
    }
}

/// A list of things to do, as mathematical values.
pub open spec fn actions_view(actions: Seq<FsAction>) -> Seq<FsActionView> {
    actions.map_values(|a: FsAction| a@)
}

/// An action on a directory whose failure is reported as `what` and the path.
pub open spec fn action_on(op: FsOp, path: Seq<char>, what: Seq<char>) -> FsActionView {
    FsActionView { op, path, contents: ContentsView::Nothing, context: what + path }
}

/// Writing bytes to a file.
pub open spec fn write_bytes(path: Seq<char>, bytes: Seq<u8>, context: Seq<char>) -> FsActionView {
    FsActionView { op: FsOp::WriteFile, path, contents: ContentsView::Bytes(bytes), context }
}

/// Writing a text to a file.
pub open spec fn write_text(path: Seq<char>, text: Seq<char>, context: Seq<char>) -> FsActionView {
    FsActionView { op: FsOp::WriteFile, path, contents: ContentsView::Text(text), context }
}

fn new_action(op: FsOp, path: &str, what: &str) -> (r: FsAction)
    ensures
        r@ == action_on(op, path@, what@),
{
    FsAction {
        op,
        path: path.to_owned(),
        contents: Contents::Nothing,
        context: joined(what, path),
    }
}

/// Whether the stored layout version is the current one, white space around it
/// aside.
pub open spec fn is_compatible(stored: Option<Seq<char>>) -> bool {
    match stored {
        Some(s) => crate::text::trim_text(s) == LAYOUT_VERSION@,
        None => false,
    }
}

/// The file that holds the layout version.
pub open spec fn version_path(paths: PathsView) -> Seq<char> {
    crate::paths::path_join(paths.apps_dir, ".layout-version"@)
}

/// What is done at start-up: an incompatible layout is wiped, then the
/// directories and the version file are made.
pub open spec fn init_actions(
    paths: PathsView,
    apps_dir_exists: bool,
    stored: Option<Seq<char>>,
) -> Seq<FsActionView> {
    let make_output = action_on(FsOp::CreateDir, paths.output_dir, "create output dir "@);
    let wipe = action_on(FsOp::RemoveDir, paths.apps_dir, "wipe apps dir "@);
    let make_apps = action_on(FsOp::CreateDir, paths.apps_dir, "create apps dir "@);
    let write_version = write_text(
        version_path(paths),
        LAYOUT_VERSION@,
        "write layout version file"@,
    );
    if apps_dir_exists && !is_compatible(stored) {
        seq![make_output, wipe, make_apps, write_version]
    } else {
        seq![make_output, make_apps, write_version]
    }
}

impl Paths {
    /// The places below an output directory and a checkpoint directory.
    pub fn new(output_dir: String, checkpoints_dir: String) -> (r: Self)
        ensures
            r@ == places(output_dir@, checkpoints_dir@),
    {
        let apps_dir: String = join(output_dir.as_str(), "apps");
        let db_path: String = join(apps_dir.as_str(), "jobs.sqlite");
        Paths { output_dir, apps_dir, db_path, checkpoints_dir }
    }

    /// The file that holds the layout version.
    pub fn version_file(&self) -> (r: String)
        ensures
            r@ == version_path(self@),
    {
        join(self.apps_dir.as_str(), ".layout-version")
    }

    /// What is done at start-up, given whether the directory of the apps is
    /// there and what its version file holds.
    pub fn init(&self, apps_dir_exists: bool, stored: Option<String>) -> (r: Vec<FsAction>)
        ensures
            actions_view(r@) == init_actions(
                self@,
                apps_dir_exists,
                match stored {
                    Some(s) => Some(s@),
                    None => None,
                },
            ),
    {
        let mut r: Vec<FsAction> = Vec::new();
        r.push(new_action(FsOp::CreateDir, self.output_dir.as_str(), "create output dir "));
        let compatible: bool = match stored {
            Some(ref s) => same(trim(s.as_str()).as_str(), LAYOUT_VERSION),
            None => false,
        };
        if apps_dir_exists && !compatible {
            r.push(new_action(FsOp::RemoveDir, self.apps_dir.as_str(), "wipe apps dir "));
        }
        r.push(new_action(FsOp::CreateDir, self.apps_dir.as_str(), "create apps dir "));
        r.push(
            FsAction {
                op: FsOp::WriteFile,
                path: self.version_file(),
                contents: Contents::Text(LAYOUT_VERSION.to_owned()),
                context: "write layout version file".to_owned(),
            },
        );
        proof {
            assert(actions_view(r@) =~= init_actions(
                self@,
                apps_dir_exists,
                match stored {
                    Some(s) => Some(s@),
                    None => None,
                },
            ));
        }
        r
    }

    /// The directory that a job works in.
    pub fn work_dir(&self, app_id: &str, job_id: &str) -> (r: String)
        ensures
            r@ == crate::paths::path_join(
                crate::paths::path_join(self@.apps_dir, app_id@),
                job_id@,
            ),
    {
        let app_dir: String = join(self.apps_dir.as_str(), app_id);
        join(app_dir.as_str(), job_id)
    }

    /// The directory that a model's files are in.
    pub fn model_dir(&self, dir: &str) -> (r: String)
        ensures
            r@ == crate::paths::path_join(self@.checkpoints_dir, dir@),
    {
        join(self.checkpoints_dir.as_str(), dir)
    }
}

/// Where an upload is stored in the directory of its job.
pub open spec fn stored_input(work_dir: Seq<char>, input_filename: Seq<char>) -> Seq<char> {
    crate::paths::path_join(work_dir, "input_"@ + safe_name(input_filename))
}

/// What is done to store an upload: its directory is made, and the file gets
/// the bytes of the upload.
pub open spec fn store_actions(
    work_dir: Seq<char>,
    input_filename: Seq<char>,
    bytes: Seq<u8>,
) -> Seq<FsActionView> {
    let path = stored_input(work_dir, input_filename);
    seq![
        action_on(FsOp::CreateDir, work_dir, "create work dir "@),
        write_bytes(path, bytes, "write input to "@ + path),
    ]
}

/// How an upload is stored: where, and what is done to get its bytes there.
pub fn create_work_dir_with_input(work_dir: &str, input_filename: &str, bytes: Vec<u8>) -> (r: (
    String,
    Vec<FsAction>,
))
    ensures
        r.0@ == stored_input(work_dir@, input_filename@),
        actions_view(r.1@) == store_actions(work_dir@, input_filename@, bytes@),
{
    let safe: String = sanitize_filename(input_filename);
    let name: String = joined("input_", safe.as_str());
    let input_path: String = join(work_dir, name.as_str());
    let ghost upload = bytes@;
    let mut actions: Vec<FsAction> = Vec::new();
    actions.push(new_action(FsOp::CreateDir, work_dir, "create work dir "));
    actions.push(
        FsAction {
            op: FsOp::WriteFile,
            path: input_path.clone(),
            contents: Contents::Bytes(bytes),
            context: joined("write input to ", input_path.as_str()),
        },
    );
    proof {
        assert(actions_view(actions@) =~= store_actions(work_dir@, input_filename@, upload));
    }
    (input_path, actions)
}

// ---------- laws ----------

/// A stored file name is a plain name of safe characters, whatever the client
/// has sent, and storing it once more leaves it as it is.
pub proof fn law_stored_names_are_plain(name: Seq<char>)
    ensures
        crate::paths::is_plain_name(safe_name(name)),
        forall|i: int| 0 <= i < safe_name(name).len() ==> is_safe(#[trigger] safe_name(name)[i]),
        safe_name(safe_name(name)) == safe_name(name),
{
    reveal_strlit("input");
    reveal_strlit(".");
    reveal_strlit("..");
    crate::paths::law_file_name_is_plain(name);
    let base = client_name(name);
    let safe = safe_name(name);
    assert(base.len() > 0 && base != "."@ && base != ".."@) by {
        if crate::paths::file_name(name) is None {
            assert(base.len() == 5);
        }
    }
    assert(!safe.contains('/'));
    if safe == "."@ {
        assert(safe[0] == '.');
        assert(base =~= "."@);
    }
    if safe == ".."@ {
        assert(safe[0] == '.' && safe[1] == '.');
        assert(base =~= ".."@);
    }
    crate::paths::law_joined_name(seq![], safe);
    assert(crate::paths::path_join(seq![], safe) =~= safe);
    assert(safe_name(safe) =~= safe);
}

/// An upload is stored in the directory of its job and nowhere else, under a
/// name that begins with `input_`.
pub proof fn law_uploads_stay_in_their_directory(work_dir: Seq<char>, input_filename: Seq<char>)
    requires
        work_dir.len() > 0,
        work_dir.last() != '/',
    ensures
        stored_input(work_dir, input_filename) == work_dir + "/"@ + ("input_"@ + safe_name(
            input_filename,
        )),
        crate::paths::file_name(stored_input(work_dir, input_filename)) == Some(
            "input_"@ + safe_name(input_filename),
        ),
        !("input_"@ + safe_name(input_filename)).contains('/'),
{
    lemma_input_name_is_plain(input_filename);
    crate::paths::law_joined_name(work_dir, "input_"@ + safe_name(input_filename));
}

/// A stored upload has a name that begins with `input_`, in whatever directory
/// it is stored.
pub proof fn law_stored_input_is_an_input(work_dir: Seq<char>, input_filename: Seq<char>)
    ensures
        crate::paths::file_name(stored_input(work_dir, input_filename)) == Some(
            "input_"@ + safe_name(input_filename),
        ),
        crate::text::begins_with("input_"@ + safe_name(input_filename), "input_"@),
{
    lemma_input_name_is_plain(input_filename);
    crate::paths::law_joined_name(work_dir, "input_"@ + safe_name(input_filename));
}

proof fn lemma_input_name_is_plain(input_filename: Seq<char>)
    ensures
        crate::paths::is_plain_name("input_"@ + safe_name(input_filename)),
        crate::text::begins_with("input_"@ + safe_name(input_filename), "input_"@),
{
    reveal_strlit("input_");
    reveal_strlit(".");
    reveal_strlit("..");
    law_stored_names_are_plain(input_filename);
    let safe = safe_name(input_filename);
    let name = "input_"@ + safe;
    assert(!name.contains('/')) by {
        assert forall|i: int| 0 <= i < name.len() implies name[i] != '/' by {
            if i < 6 {
                assert(name[i] == "input_"@[i]);
            } else {
                assert(name[i] == safe[i - 6]);
            }
        }
    }
    assert(name.take(6) =~= "input_"@);
}

/// The extension of decrypted music has no slash.
proof fn lemma_decoded_extension(music: Seq<u8>)
    ensures
        !("decoded."@ + audio_ext(music)).contains('/'),
        ("decoded."@ + audio_ext(music)).len() > 0,
{
    reveal_strlit("decoded.");
    reveal_strlit("flac");
    reveal_strlit("mp3");
    reveal_strlit("ogg");
    let kind = audio_ext(music);
    let ext = "decoded."@ + kind;
    assert forall|i: int| 0 <= i < ext.len() implies ext[i] != '/' by {
        if i < 8 {
            assert(ext[i] == "decoded."@[i]);
        } else {
            assert(ext[i] == kind[i - 8]);
        }
    }
}

/// Decrypted music is written beside the upload, under a name that begins with
/// `input_` as the upload's does.
pub proof fn law_decoded_files_are_inputs_too(
    work_dir: Seq<char>,
    input_filename: Seq<char>,
    music: Seq<u8>,
)
    ensures
        ({
            let path = decoded_path(stored_input(work_dir, input_filename), music);
            &&& crate::paths::file_name(path) is Some
            &&& crate::text::begins_with(crate::paths::file_name(path)->Some_0, "input_"@)
        }),
{
    reveal_strlit("input_");
    let name = "input_"@ + safe_name(input_filename);
    let ext = "decoded."@ + audio_ext(music);
    lemma_input_name_is_plain(input_filename);
    crate::paths::law_joined_name(work_dir, name);
    lemma_decoded_extension(music);
    crate::paths::law_with_extension(stored_input(work_dir, input_filename), ext);
    crate::paths::lemma_stem_keeps_undotted_prefix("input_"@, safe_name(input_filename));
    let stem = crate::paths::name_stem(name);
    let new_name = stem + "."@ + ext;
    assert(new_name.take(6) =~= stem.take(6));
}

/// Decrypting never overwrites the upload: the music gets another file name.
pub proof fn law_decrypting_keeps_the_upload(
    work_dir: Seq<char>,
    input_filename: Seq<char>,
    music: Seq<u8>,
)
    ensures
        ({
            let stored = stored_input(work_dir, input_filename);
            &&& decoded_path(stored, music) != stored
            &&& crate::paths::file_name(decoded_path(stored, music)) != crate::paths::file_name(
                stored,
            )
        }),
{
    reveal_strlit("decoded.");
    let ext = "decoded."@ + audio_ext(music);
    law_stored_input_is_an_input(work_dir, input_filename);
    lemma_decoded_extension(music);
    assert(ext[7] == '.');
    crate::paths::law_dotted_extension_renames(stored_input(work_dir, input_filename), ext);
}

/// A start on a directory with the current layout removes nothing; a start on
/// any other one wipes exactly the directory of the apps. Either way the
/// version file is written last.
pub proof fn law_only_an_incompatible_layout_is_wiped(
    paths: PathsView,
    apps_dir_exists: bool,
    stored: Option<Seq<char>>,
)
    ensures
        ({
            let actions = init_actions(paths, apps_dir_exists, stored);
            &&& forall|i: int|
                0 <= i < actions.len() && (#[trigger] actions[i]).op is RemoveDir ==> apps_dir_exists
                    && !is_compatible(stored) && actions[i].path == paths.apps_dir
            &&& apps_dir_exists && !is_compatible(stored) ==> exists|i: int|
                0 <= i < actions.len() && (#[trigger] actions[i]).op is RemoveDir
            &&& actions.last().op is WriteFile && actions.last().path == version_path(paths)
        }),
{
    let actions = init_actions(paths, apps_dir_exists, stored);
    if apps_dir_exists && !is_compatible(stored) {
        assert(actions[1].op is RemoveDir);
    }
}

/// The version that is written at start-up is compatible at the next one: a
/// start after a start removes nothing and writes the same version again.
pub proof fn law_written_version_is_compatible(
    paths: PathsView,
    apps_dir_exists: bool,
    stored: Option<Seq<char>>,
)
    ensures
        ({
            let first = init_actions(paths, apps_dir_exists, stored);
            &&& first.last() == write_text(
                version_path(paths),
                LAYOUT_VERSION@,
                "write layout version file"@,
            )
            &&& is_compatible(Some(LAYOUT_VERSION@))
            &&& forall|i: int|
                0 <= i < init_actions(paths, true, Some(LAYOUT_VERSION@)).len() ==> !((
                #[trigger] init_actions(paths, true, Some(LAYOUT_VERSION@))[i]).op is RemoveDir)
            &&& init_actions(paths, true, Some(LAYOUT_VERSION@)).last() == first.last()
        }),
{
    reveal_strlit("1");
}

/// Storing an upload writes one file: the stored upload, with exactly the bytes
/// that were uploaded.
pub proof fn law_uploads_are_stored_whole(
    work_dir: Seq<char>,
    input_filename: Seq<char>,
    bytes: Seq<u8>,
    i: int,
)
    requires
        0 <= i < store_actions(work_dir, input_filename, bytes).len(),
        store_actions(work_dir, input_filename, bytes)[i].op is WriteFile,
    ensures
        store_actions(work_dir, input_filename, bytes)[i].path == stored_input(
            work_dir,
            input_filename,
        ),
        store_actions(work_dir, input_filename, bytes)[i].contents == ContentsView::Bytes(bytes),
{
}

/// A name made of English letters of either case, digits, dots, hyphens and
/// underscores is stored under that very name, whatever directory the client
/// has put before it.
pub proof fn law_clean_names_are_kept(dir: Seq<char>, name: Seq<char>)
    requires
        crate::paths::is_plain_name(name),
        forall|i: int|
            0 <= i < name.len() ==> {
                let c = #[trigger] name[i];
                ||| 'a' <= c <= 'z'
                ||| 'A' <= c <= 'Z'
                ||| '0' <= c <= '9'
                ||| c == '.' || c == '-' || c == '_'
            },
    ensures
        safe_name(name) == name,
        safe_name(crate::paths::path_join(dir, name)) == name,
{
    crate::paths::law_joined_name(Seq::empty(), name);
    crate::paths::law_joined_name(dir, name);
    assert(Seq::<char>::empty() + name =~= name);
    assert(safe_name(name) =~= name);
    assert(safe_name(crate::paths::path_join(dir, name)) =~= name);
}

/// Each character of a name that a client has sent is stored as one character:
/// as itself where it is an English letter, a digit, a dot, a hyphen or an
/// underscore, and as an underscore where it is anything else.
pub proof fn law_other_characters_become_underscores(dir: Seq<char>, name: Seq<char>, i: int)
    requires
        crate::paths::is_plain_name(name),
        0 <= i < name.len(),
    ensures
        ({
            let stored = safe_name(crate::paths::path_join(dir, name));
            let c = name[i];
            let kept = {
                ||| 'a' <= c <= 'z'
                ||| 'A' <= c <= 'Z'
                ||| '0' <= c <= '9'
                ||| c == '.' || c == '-' || c == '_'
            };
            &&& stored.len() == name.len()
            &&& kept ==> stored[i] == c
            &&& !kept ==> stored[i] == '_'
        }),
{
    crate::paths::law_joined_name(dir, name);
}

/// A path that ends in no file name is stored under the name `input`.
pub proof fn law_nameless_uploads(path: Seq<char>)
    requires
        crate::paths::file_name(path) is None,
    ensures
        safe_name(path) == "input"@,
{
    reveal_strlit("input");
    assert(safe_name(path) =~= "input"@);
}

/// The characters of a stored name keep the dots of the name that was sent.
proof fn lemma_dots_are_kept(name: Seq<char>, stored: Seq<char>)
    requires
        stored == name.map_values(|c: char| safe_char(c)),
        !name.contains('.'),
    ensures
        !stored.contains('.'),
{
    assert forall|i: int| 0 <= i < stored.len() implies stored[i] != '.' by {
        assert(stored[i] == safe_char(name[i]));
        assert(name[i] != '.');
    }
}

/// A file with an extension is stored under a name with that extension, each
/// character as it is stored; one of English letters and digits stays as it is.
pub proof fn law_extensions_are_kept(
    work_dir: Seq<char>,
    dir: Seq<char>,
    stem: Seq<char>,
    ext: Seq<char>,
)
    requires
        stem.len() > 0,
        !stem.contains('/'),
        !ext.contains('/'),
        !ext.contains('.'),
        stem + "."@ + ext != ".."@,
    ensures
        ({
            let sent = crate::paths::path_join(dir, stem + "."@ + ext);
            let found = crate::paths::extension(stored_input(work_dir, sent));
            &&& found is Some
            &&& found->Some_0.len() == ext.len()
            &&& (forall|i: int|
                0 <= i < ext.len() ==> {
                    let c = #[trigger] ext[i];
                    'a' <= c <= 'z' || 'A' <= c <= 'Z' || '0' <= c <= '9'
                }) ==> found->Some_0 == ext
        }),
{
    reveal_strlit(".");
    reveal_strlit("..");
    reveal_strlit("input_");
    let f = |c: char| safe_char(c);
    let name = stem + "."@ + ext;
    let sent = crate::paths::path_join(dir, name);
    crate::paths::law_stem_and_extension(dir, stem, ext, Seq::empty());
    crate::paths::lemma_dotted_name_is_plain(stem, ext);
    crate::paths::law_joined_name(dir, name);
    let safe_stem = stem.map_values(f);
    let safe_ext = ext.map_values(f);
    let stored_stem = "input_"@ + safe_stem;
    assert("input_"@ + safe_name(sent) =~= stored_stem + "."@ + safe_ext);
    lemma_dots_are_kept(ext, safe_ext);
    assert forall|i: int| 0 <= i < stored_stem.len() implies stored_stem[i] != '/' by {
        if i < 6 {
            assert(stored_stem[i] == "input_"@[i]);
        } else {
            assert(stored_stem[i] == safe_char(stem[i - 6]));
        }
    }
    assert forall|i: int| 0 <= i < safe_ext.len() implies safe_ext[i] != '/' by {
        assert(safe_ext[i] == safe_char(ext[i]));
    }
    assert((stored_stem + "."@ + safe_ext).len() > 2);
    crate::paths::law_stem_and_extension(work_dir, stored_stem, safe_ext, Seq::empty());
    if forall|i: int|
        0 <= i < ext.len() ==> {
            let c = #[trigger] ext[i];
            'a' <= c <= 'z' || 'A' <= c <= 'Z' || '0' <= c <= '9'
        } {
        assert(safe_ext =~= ext);
    }
}

/// An upload whose extension is `ncm`, with each letter in either case, is
/// taken for encrypted music before it is stored and after.
pub proof fn law_encrypted_uploads_stay_encrypted(
    work_dir: Seq<char>,
    dir: Seq<char>,
    stem: Seq<char>,
    ext: Seq<char>,
)
    requires
        stem.len() > 0,
        !stem.contains('/'),
        ext.len() == 3,
        ext[0] == 'n' || ext[0] == 'N',
        ext[1] == 'c' || ext[1] == 'C',
        ext[2] == 'm' || ext[2] == 'M',
    ensures
        is_ncm_path(crate::paths::path_join(dir, stem + "."@ + ext)),
        is_ncm_path(
            stored_input(work_dir, crate::paths::path_join(dir, stem + "."@ + ext)),
        ),
{
    reveal_strlit(".");
    reveal_strlit("..");
    reveal_strlit("ncm");
    assert((stem + "."@ + ext).len() > 2);
    crate::paths::law_stem_and_extension(dir, stem, ext, Seq::empty());
    law_extensions_are_kept(work_dir, dir, stem, ext);
    crate::text::law_case_does_not_matter(ext, "ncm"@);
}

/// Only a path whose extension is `ncm`, letter by letter and case aside, is
/// taken for encrypted music.
pub proof fn law_only_ncm_is_encrypted(path: Seq<char>)
    requires
        is_ncm_path(path),
    ensures
        ({
            let ext = crate::paths::extension(path);
            &&& ext is Some
            &&& ext->Some_0.len() == 3
            &&& ext->Some_0[0] == 'n' || ext->Some_0[0] == 'N'
            &&& ext->Some_0[1] == 'c' || ext->Some_0[1] == 'C'
            &&& ext->Some_0[2] == 'm' || ext->Some_0[2] == 'M'
        }),
{
    reveal_strlit("ncm");
    crate::text::law_case_does_not_matter(crate::paths::extension(path)->Some_0, "ncm"@);
}

/// Music is told by its first bytes: `fLaC` is FLAC, `OggS` is Ogg, and
/// anything else, shorter data too, is taken for MP3. What follows the first
/// four bytes does not matter.
pub proof fn law_music_is_told_by_its_first_bytes(data: Seq<u8>)
    ensures
        data.len() >= 4 && data[0] == 0x66 && data[1] == 0x4C && data[2] == 0x61 && data[3] == 0x43
            <==> audio_ext(data) == "flac"@,
        data.len() >= 4 && data[0] == 0x4F && data[1] == 0x67 && data[2] == 0x67 && data[3] == 0x53
            <==> audio_ext(data) == "ogg"@,
        audio_ext(data) == "flac"@ || audio_ext(data) == "ogg"@ || audio_ext(data) == "mp3"@,
{
    reveal_strlit("flac");
    reveal_strlit("ogg");
    reveal_strlit("mp3");
    assert("flac"@.len() == 4 && "ogg"@.len() == 3 && "mp3"@.len() == 3);
    assert("ogg"@[0] != "mp3"@[0]);
    let flac = seq![0x66u8, 0x4Cu8, 0x61u8, 0x43u8];
    let ogg = seq![0x4Fu8, 0x67u8, 0x67u8, 0x53u8];
    let id3 = seq![0x49u8, 0x44u8, 0x33u8];
    let frame = seq![0xFFu8, 0xFBu8];
    if data.len() >= 4 {
        assert forall|k: int| 0 <= k < 4 implies data.take(4)[k] == data[k] by {}
        assert(data.take(3)[0] == data[0]);
        assert(data.take(2)[0] == data[0]);
        assert(id3[0] == 0x49 && frame[0] == 0xFF && ogg[0] == 0x4F);
        if data[0] == 0x66 && data[1] == 0x4C && data[2] == 0x61 && data[3] == 0x43 {
            assert(data.take(4) =~= flac);
        } else {
            assert(flac[0] == 0x66 && flac[1] == 0x4C && flac[2] == 0x61 && flac[3] == 0x43);
        }
        if data[0] == 0x4F && data[1] == 0x67 && data[2] == 0x67 && data[3] == 0x53 {
            assert(data.take(4) =~= ogg);
            assert(data.take(4)[0] != flac[0]);
        } else {
            assert(ogg[0] == 0x4F && ogg[1] == 0x67 && ogg[2] == 0x67 && ogg[3] == 0x53);
        }
    }
}

/// Music decrypted from `dir/stem.ncm` is written to `dir/stem.decoded.flac`,
/// `dir/stem.decoded.ogg` or `dir/stem.decoded.mp3`, and holds what was
/// decrypted. Where decrypting fails, its reason is passed on.
pub proof fn law_decrypted_music_lies_beside_the_upload(
    dir: Seq<char>,
    stem: Seq<char>,
    ext: Seq<char>,
    music: Seq<u8>,
    reason: Seq<char>,
)
    requires
        stem.len() > 0,
        !stem.contains('/'),
        ext.len() == 3,
        ext[0] == 'n' || ext[0] == 'N',
        ext[1] == 'c' || ext[1] == 'C',
        ext[2] == 'm' || ext[2] == 'M',
    ensures
        ({
            let input = crate::paths::path_join(dir, stem + "."@ + ext);
            let found = decoded_input(input, Ok(music));
            &&& found == Ok::<_, Seq<char>>(
                (
                    crate::paths::path_join(dir, stem + "."@ + ("decoded."@ + audio_ext(music))),
                    Some(music),
                ),
            )
            &&& decoded_input(input, Err(reason)) == Err::<(Seq<char>, Option<Seq<u8>>), _>(
                "ncm open: "@ + reason,
            )
        }),
{
    reveal_strlit(".");
    reveal_strlit("..");
    assert((stem + "."@ + ext).len() > 2);
    law_encrypted_uploads_stay_encrypted(dir, dir, stem, ext);
    lemma_decoded_extension(music);
    crate::paths::law_stem_and_extension(dir, stem, ext, "decoded."@ + audio_ext(music));
}

/// A file that is not encrypted is read where it lies, whatever decrypting it
/// would give: nothing is written.
pub proof fn law_other_inputs_are_read_as_they_are(
    path: Seq<char>,
    read: Result<Seq<u8>, Seq<char>>,
)
    requires
        crate::paths::extension(path) matches Some(ext) ==> ext.len() != 3 || (ext[0] != 'n'
            && ext[0] != 'N') || (ext[1] != 'c' && ext[1] != 'C') || (ext[2] != 'm' && ext[2]
            != 'M'),
    ensures
        decoded_input(path, read) == Ok::<(Seq<char>, Option<Seq<u8>>), Seq<char>>((path, None)),
{
    if is_ncm_path(path) {
        law_only_ncm_is_encrypted(path);
    }
}

/// A start makes the output directory first. It then makes the directory of the
/// apps, after any wipe, and last of all writes the version into it. Each
/// failure is reported with the path it befell.
pub proof fn law_start_up_order(
    paths: PathsView,
    apps_dir_exists: bool,
    stored: Option<Seq<char>>,
)
    ensures
        ({
            let actions = init_actions(paths, apps_dir_exists, stored);
            let n = actions.len() as int;
            &&& n == 3 || n == 4
            &&& n == 4 <==> apps_dir_exists && !is_compatible(stored)
            &&& actions[0].op is CreateDir && actions[0].path == paths.output_dir
            &&& actions[0].context == "create output dir "@ + paths.output_dir
            &&& n == 4 ==> actions[1].op is RemoveDir && actions[1].path == paths.apps_dir
                && actions[1].context == "wipe apps dir "@ + paths.apps_dir
            &&& actions[n - 2].op is CreateDir && actions[n - 2].path == paths.apps_dir
            &&& actions[n - 2].context == "create apps dir "@ + paths.apps_dir
            &&& actions[n - 1].op is WriteFile
            &&& crate::paths::file_name(actions[n - 1].path) == Some(".layout-version"@)
            &&& actions[n - 1].path == crate::paths::path_join(
                paths.apps_dir,
                ".layout-version"@,
            )
            &&& actions[n - 1].contents == ContentsView::Text(LAYOUT_VERSION@)
            &&& forall|i: int| 0 <= i < n - 1 ==> (#[trigger] actions[i]).contents is Nothing
        }),
{
    reveal_strlit(".layout-version");
    reveal_strlit(".");
    reveal_strlit("..");
    assert(crate::paths::is_plain_name(".layout-version"@));
    crate::paths::law_joined_name(paths.apps_dir, ".layout-version"@);
}

/// A layout is compatible exactly if its version file holds the current
/// version with nothing but white space around it.
pub proof fn law_white_space_around_the_version(before: Seq<char>, text: Seq<char>, after: Seq<char>)
    requires
        forall|i: int| 0 <= i < before.len() ==> crate::text::is_space(#[trigger] before[i]),
        forall|i: int| 0 <= i < after.len() ==> crate::text::is_space(#[trigger] after[i]),
        text.len() > 0 ==> !crate::text::is_space(text[0]) && !crate::text::is_space(text.last()),
    ensures
        is_compatible(Some(before + text + after)) <==> text == "1"@,
        !is_compatible(None),
{
    crate::text::law_trimming_takes_the_space_around(before, text, after);
}

/// The database lies in the directory of the apps, which lies in the output
/// directory; the two directories that were given are kept.
pub proof fn law_places(output_dir: Seq<char>, checkpoints_dir: Seq<char>)
    requires
        output_dir.len() > 0,
        output_dir.last() != '/',
    ensures
        places(output_dir, checkpoints_dir).output_dir == output_dir,
        places(output_dir, checkpoints_dir).checkpoints_dir == checkpoints_dir,
        places(output_dir, checkpoints_dir).apps_dir == output_dir + "/apps"@,
        places(output_dir, checkpoints_dir).db_path == output_dir + "/apps/jobs.sqlite"@,
{
    reveal_strlit("/");
    reveal_strlit("apps");
    reveal_strlit("/apps");
    reveal_strlit("jobs.sqlite");
    reveal_strlit("/apps/jobs.sqlite");
    assert(places(output_dir, checkpoints_dir).apps_dir =~= output_dir + "/apps"@);
    assert(places(output_dir, checkpoints_dir).db_path =~= output_dir + "/apps/jobs.sqlite"@);
}

/// The directory of a job is made before its upload is written into it, and
/// nothing else is done. Each failure is reported with the path it befell.
pub proof fn law_storing_order(work_dir: Seq<char>, input_filename: Seq<char>, bytes: Seq<u8>)
    ensures
        ({
            let actions = store_actions(work_dir, input_filename, bytes);
            let path = crate::paths::path_join(work_dir, "input_"@ + safe_name(input_filename));
            &&& actions.len() == 2
            &&& actions[0].op is CreateDir && actions[0].path == work_dir
            &&& actions[0].context == "create work dir "@ + work_dir
            &&& actions[1].op is WriteFile && actions[1].path == path
            &&& actions[1].contents == ContentsView::Bytes(bytes)
            &&& actions[1].context == "write input to "@ + path
        }),
{
}

/// Bytes begin with others exactly if they are those with something after them.
pub proof fn law_leading_bytes(bytes: Seq<u8>, prefix: Seq<u8>, rest: Seq<u8>)
    ensures
        bytes_begin_with(prefix + rest, prefix),
        bytes_begin_with(bytes, prefix) ==> bytes == prefix + bytes.skip(prefix.len() as int),
{
    assert((prefix + rest).take(prefix.len() as int) =~= prefix);
    if bytes_begin_with(bytes, prefix) {
        assert(bytes =~= bytes.take(prefix.len() as int) + bytes.skip(prefix.len() as int));
    }
}

/// Only a file that has the header, and that holds the whole key area which the
/// header announces, can be kept from the decoder, and only where that area has
/// 16 or 32 bytes.
pub proof fn law_what_is_kept_from_the_decoder(bytes: Seq<u8>)
    ensures
        !ncm_key_is_long_enough(bytes) ==> {
            let length = bytes[10] as int + 256 * (bytes[11] as int + 256 * (bytes[12] as int + 256
                * (bytes[13] as int)));
            &&& length == 16 || length == 32
            &&& bytes.len() >= 14 + length
            &&& bytes[0] == 0x43 && bytes[1] == 0x54 && bytes[2] == 0x45 && bytes[3] == 0x4E
            &&& bytes[4] == 0x46 && bytes[5] == 0x44 && bytes[6] == 0x41 && bytes[7] == 0x4D
        },
{
    if has_ncm_header(bytes) {
        let head = bytes.take(8);
        assert(head == ncm_magic());
        assert(forall|i: int| 0 <= i < 8 ==> head[i] == bytes[i]);
        assert(head[0] == 0x43 && head[1] == 0x54 && head[2] == 0x45 && head[3] == 0x4E);
        assert(head[4] == 0x46 && head[5] == 0x44 && head[6] == 0x41 && head[7] == 0x4D);
    }
}

/// A file with the header whose key area has neither 16 nor 32 bytes can be
/// handed to the decoder, and so can one without the header.
pub proof fn law_what_is_handed_to_the_decoder(bytes: Seq<u8>)
    ensures
        bytes.len() < 10 || bytes[0] != 0x43 || bytes[7] != 0x4D ==> ncm_key_is_long_enough(bytes),
        bytes.len() >= 14 && bytes[10] != 16 && bytes[10] != 32 ==> ncm_key_is_long_enough(bytes),
{
    if bytes.len() >= 10 {
        let head = bytes.take(8);
        assert(head[0] == bytes[0] && head[7] == bytes[7]);
        assert(ncm_magic()[0] == 0x43 && ncm_magic()[7] == 0x4D);
    }
}

/// Nothing of a place, of an action or of a decoded input is left out of its
/// view, and nothing is mixed up.
pub proof fn law_actions_are_seen_whole(
    paths: Paths,
    actions: Seq<FsAction>,
    i: int,
    input: DecodedInput,
    message: String,
)
    requires
        0 <= i < actions.len(),
    ensures
        paths@.output_dir == paths.output_dir@,
        paths@.apps_dir == paths.apps_dir@,
        paths@.db_path == paths.db_path@,
        paths@.checkpoints_dir == paths.checkpoints_dir@,
        actions_view(actions).len() == actions.len(),
        actions_view(actions)[i].op == actions[i].op,
        actions_view(actions)[i].path == actions[i].path@,
        actions_view(actions)[i].context == actions[i].context@,
        actions[i].contents matches Contents::Bytes(bytes) ==> actions_view(actions)[i].contents
            == ContentsView::Bytes(bytes@),
        actions[i].contents matches Contents::Text(text) ==> actions_view(actions)[i].contents
            == ContentsView::Text(text@),
        decoded_input_view(Err(message)) == Err::<(Seq<char>, Option<Seq<u8>>), _>(message@),
        decoded_input_view(Ok(input)) matches Ok(seen) && seen.0 == input.path@ && (
        input.music is None ==> seen.1 is None) && (input.music matches Some(music) ==> seen.1
            == Some(music@)),
{
}

} // verus!
