//! The secret codec: how the cipher tool is called and what its answer
//! means, when an edited secret is written back, and the keeper that hands
//! out the master passphrase.
//!
//! The cipher tool runs as a process of its own. This module says with which
//! arguments, and reads what the finished process left behind.

use crate::error::{view_result, CodecError, CodecErrorView};
use crate::text::{
    after_last, chars_of, find_from, index_of, lemma_trim_idempotent, trim,
    trim_bounds, trim_end, trimmed, trimmed_end, tail_after, same_text,
};
use vstd::prelude::*;
use vstd::string::StringExecFns;
use vstd::utf8::{decode_utf8, encode_utf8, encode_utf8_decode_utf8, encode_utf8_valid_utf8, valid_utf8};

verus! {

/// What a finished run of the cipher tool left behind.
#[derive(Debug, Clone, PartialEq, Eq)]
pub struct CipherOutput {
    /// Whether the process exited with status zero.
    pub success: bool,
    /// What it wrote to its output.
    pub stdout: Vec<u8>,
    /// What it wrote to its diagnostic stream.
    pub stderr: Vec<u8>,
}

/// A `CipherOutput` as mathematical values.
pub struct CipherOutputView {
    pub success: bool,
    pub stdout: Seq<u8>,
    pub stderr: Seq<u8>,
}

impl View for CipherOutput {
    type V = CipherOutputView;

    open spec fn view(&self) -> CipherOutputView {
        CipherOutputView { success: self.success, stdout: self.stdout@, stderr: self.stderr@ }
    }
}

/// The name of the cipher tool.
pub open spec fn cipher_program() -> Seq<char> {
    "gpg"@
}

/// The arguments with which the cipher tool encrypts its input under
/// `passphrase`, without asking anything.
pub open spec fn encrypt_arguments(passphrase: Seq<char>) -> Seq<Seq<char>> {
    seq!["--batch"@, "--armor"@, "--passphrase"@, passphrase, "--symmetric"@]
}

/// The arguments with which the cipher tool decrypts `file`: under
/// `passphrase` and without asking anything where one is given, and with
/// whatever key it holds or asks for itself where none is.
pub open spec fn decrypt_arguments(passphrase: Option<Seq<char>>, file: Seq<char>) -> Seq<
    Seq<char>,
> {
    match passphrase {
        Some(key) => seq!["--batch"@, "--passphrase"@, key, "--decrypt"@, file],
        None => seq!["--decrypt"@, file],
    }
}

/// What the cipher tool has to say about a failure: the last line of its
/// diagnostics, once the whitespace around them is gone.
pub open spec fn last_line(diagnostics: Seq<char>) -> Seq<char> {
    after_last(trim(diagnostics), '\n')
}

/// What is reported where the cipher tool wrote something that is no text.
pub open spec fn not_text() -> Seq<char> {
    "cipher tool output is not valid UTF-8"@
}

/// The failure that a run of the cipher tool stands for where it did not
/// succeed.
pub open spec fn cipher_failure(stderr: Seq<u8>) -> CodecErrorView {
    if valid_utf8(stderr) {
        CodecErrorView::CipherFailed(last_line(decode_utf8(stderr)))
    } else {
        CodecErrorView::Io(not_text())
    }
}

/// The ciphertext that an encrypting run of the cipher tool produced, or why
/// there is none.
pub open spec fn encrypted(output: CipherOutputView) -> Result<Seq<u8>, CodecErrorView> {
    if output.success {
        Ok(output.stdout)
    } else {
        Err(cipher_failure(output.stderr))
    }
}

/// The secret that a decrypting run of the cipher tool produced, without its
/// trailing whitespace, or why there is none. `found` is `None` where the
/// artifact does not exist, so that the tool was not run.
pub open spec fn decrypted(found: Option<CipherOutputView>) -> Result<Seq<char>, CodecErrorView> {
    match found {
        None => Err(CodecErrorView::NotFound),
        Some(output) => if !output.success {
            Err(cipher_failure(output.stderr))
        } else if valid_utf8(output.stdout) {
            Ok(trim_end(decode_utf8(output.stdout)))
        } else {
            Err(CodecErrorView::Io(not_text()))
        },
    }
}

/// Each line of `s` without the whitespace around it and with a line feed
/// after it. The lines of `s` are what its line feeds separate.
pub open spec fn trimmed_lines(s: Seq<char>) -> Seq<char>
    decreases s.len(),
{
    let n = index_of(s, '\n');
    if 0 <= n < s.len() {
        trim(s.take(n)) + seq!['\n'] + trimmed_lines(s.skip(n + 1))
    } else {
        trim(s) + seq!['\n']
    }
}

/// `s` as it is stored: every line trimmed, and then the whole.
pub open spec fn normalized(s: Seq<char>) -> Seq<char> {
    trim(trimmed_lines(s))
}

/// What becomes of an artifact after an edit.
#[derive(Debug, Clone, PartialEq, Eq)]
pub enum EditOutcome {
    /// The artifact stays as it is: nothing is written.
    Unchanged,
    /// The artifact is encrypted anew from this content.
    Changed(String),
}

/// An `EditOutcome` as mathematical values.
pub enum EditOutcomeView {
    Unchanged,
    Changed(Seq<char>),
}

impl View for EditOutcome {
    type V = EditOutcomeView;

    open spec fn view(&self) -> EditOutcomeView {
        match self {
            EditOutcome::Unchanged => EditOutcomeView::Unchanged,
            EditOutcome::Changed(content) => EditOutcomeView::Changed(content@),
        }
    }
}

/// What the editor is opened on: the decrypted content of the artifact, or
/// nothing where the artifact does not exist yet.
pub open spec fn edit_source(decrypted: Result<Seq<char>, CodecErrorView>) -> Result<
    Seq<char>,
    CodecErrorView,
> {
    match decrypted {
        Err(CodecErrorView::NotFound) => Ok(Seq::empty()),
        other => other,
    }
}

/// What becomes of an artifact that held `data` when the editor hands back
/// `edited`.
pub open spec fn edit_outcome(data: Seq<char>, edited: Seq<char>) -> EditOutcomeView {
    if data == normalized(edited) {
        EditOutcomeView::Unchanged
    } else {
        EditOutcomeView::Changed(normalized(edited))
    }
}

/// `String::from_utf8` of the standard library: the text that `bytes` encode
/// in UTF-8, and none where they are no valid UTF-8.
///
/// This contract is taken on trust, it is not proved: that the standard
/// library accepts exactly the byte strings that `valid_utf8` accepts, and
/// reads them as `decode_utf8` does.
#[verifier::external_body]
fn text_of(bytes: Vec<u8>) -> (r: Option<String>)
    ensures
        r is Some <==> valid_utf8(bytes@),
        r matches Some(text) ==> text@ == decode_utf8(bytes@),
{
    String::from_utf8(bytes).ok()
}

/// The name of the cipher tool.
pub fn cipher_tool() -> (r: String)
    ensures
        r@ == cipher_program(),
{
    "gpg".to_string()
}

/// The arguments with which the cipher tool encrypts its input under
/// `passphrase`.
pub fn encrypt_command(passphrase: &str) -> (r: Vec<String>)
    ensures
        r.deep_view() == encrypt_arguments(passphrase@),
{
    let mut r: Vec<String> = Vec::new();
    r.push("--batch".to_string());
    r.push("--armor".to_string());
    r.push("--passphrase".to_string());
    r.push(passphrase.to_string());
    r.push("--symmetric".to_string());
    proof {
        assert(r.deep_view() =~= encrypt_arguments(passphrase@));
    }
    r
}

/// The arguments with which the cipher tool decrypts `file`.
pub fn decrypt_command(passphrase: Option<&str>, file: &str) -> (r: Vec<String>)
    ensures
        r.deep_view() == decrypt_arguments(
            match passphrase {
                Some(key) => Some(key@),
                None => None,
            },
            file@,
        ),
{
    let mut r: Vec<String> = Vec::new();
    match passphrase {
        Some(key) => {
            r.push("--batch".to_string());
            r.push("--passphrase".to_string());
            r.push(key.to_string());
            r.push("--decrypt".to_string());
            r.push(file.to_string());
            proof {
                assert(r.deep_view() =~= decrypt_arguments(Some(key@), file@));
            }
        },
        None => {
            r.push("--decrypt".to_string());
            r.push(file.to_string());
            proof {
                assert(r.deep_view() =~= decrypt_arguments(None, file@));
            }
        },
    }
    r
}

/// The failure that a run of the cipher tool stands for where it did not
/// succeed: what the tool said last, all that it wrote before being banners.
pub fn failure(stderr: Vec<u8>) -> (e: CodecError)
    ensures
        e@ == cipher_failure(stderr@),
{
    match text_of(stderr) {
        Some(diagnostics) => {
            let body = trimmed(diagnostics.as_str());
            CodecError::CipherFailed(tail_after(body.as_str(), '\n'))
        },
        None => CodecError::Io("cipher tool output is not valid UTF-8".to_string()),
    }
}

/// The ciphertext that an encrypting run of the cipher tool produced, to be
/// written over the artifact, or why there is none.
pub fn encrypt(output: CipherOutput) -> (r: Result<Vec<u8>, CodecError>)
    ensures
        view_result(r) == encrypted(output@),
{
    if output.success {
        Ok(output.stdout)
    } else {
        Err(failure(output.stderr))
    }
}

/// The secret that a decrypting run of the cipher tool produced, without its
/// trailing whitespace, or why there is none. `found` is `None` where the
/// artifact does not exist, so that the tool was not run.
pub fn decrypt(found: Option<CipherOutput>) -> (r: Result<String, CodecError>)
    ensures
        view_result(r) == decrypted(
            match found {
                Some(output) => Some(output@),
                None => None,
            },
        ),
        found is None ==> r == Err::<String, CodecError>(CodecError::NotFound),
{
    match found {
        None => Err(CodecError::NotFound),
        Some(output) => {
            if !output.success {
                Err(failure(output.stderr))
            } else {
                match text_of(output.stdout) {
                    Some(text) => Ok(trimmed_end(text.as_str())),
                    None => Err(CodecError::Io("cipher tool output is not valid UTF-8".to_string())),
                }
            }
        },
    }
}

/// `s` as it is stored: every line trimmed, and then the whole.
pub fn normalize(s: &str) -> (r: String)
    ensures
        r@ == normalized(s@),
{
    proof {
        reveal_strlit("\n");
    }
    let v = chars_of(s);
    let mut lines = String::new();
    let mut start: usize = 0;
    let mut done = false;
    proof {
        assert(s@.skip(0) =~= s@);
        assert(lines@ + trimmed_lines(s@) =~= trimmed_lines(s@));
    }
    while !done
        invariant
            start <= v.len(),
            v@ == s@,
            "\n"@ == seq!['\n'],
            !done ==> lines@ + trimmed_lines(s@.skip(start as int)) == trimmed_lines(s@),
            done ==> lines@ == trimmed_lines(s@),
        decreases v.len() - start + (if done { 0int } else { 1int }),
    {
        let end = find_from(&v, '\n', start);
        let (a, b) = trim_bounds(&v, start, end);
        let ghost rest = s@.skip(start as int);
        let ghost before = lines@;
        proof {
            assert(rest.take(end - start) =~= s@.subrange(start as int, end as int));
            if end < v.len() {
                assert(rest.skip(end - start + 1) =~= s@.skip(end + 1));
            } else {
                assert(rest =~= s@.subrange(start as int, end as int));
            }
        }
        lines.append(s.substring_char(a, b));
        lines.append("\n");
        if end < v.len() {
            proof {
                let line = trim(rest.take(end - start));
                assert(lines@ + trimmed_lines(s@.skip(end + 1)) =~= before + (line + seq!['\n']
                    + trimmed_lines(s@.skip(end + 1))));
            }
            start = end + 1;
        } else {
            proof {
                assert(lines@ =~= before + (trim(rest) + seq!['\n']));
            }
            done = true;
        }
    }
    trimmed(lines.as_str())
}

/// What the editor is opened on: the decrypted content of the artifact, or
/// nothing where the artifact does not exist yet. Any other failure to
/// decrypt stands.
pub fn edit_buffer(decrypted: Result<String, CodecError>) -> (r: Result<String, CodecError>)
    ensures
        view_result(r) == edit_source(view_result(decrypted)),
{
    match decrypted {
        Err(CodecError::NotFound) => Ok(String::new()),
        other => other,
    }
}

/// What becomes of an artifact that held `data` when the editor hands back
/// `edited`: it is written anew only where the edited content, normalized,
/// differs from what it held.
pub fn edit(data: &str, edited: &str) -> (r: EditOutcome)
    ensures
        r@ == edit_outcome(data@, edited@),
{
    let content = normalize(edited);
    if same_text(data, content.as_str()) {
        EditOutcome::Unchanged
    } else {
        EditOutcome::Changed(content)
    }
}

/// What was normalized stays as it is when it is trimmed or normalized
/// again.
pub proof fn lemma_normalized_is_trimmed(s: Seq<char>)
    ensures
        trim_end(normalized(s)) == normalized(s),
        trim(normalized(s)) == normalized(s),
{
    lemma_trim_idempotent(trimmed_lines(s));
}

/// An edit that hands back what the last edit handed back changes nothing.
///
/// After an edit that handed `edited` back, the artifact holds `edited`
/// normalized, whether that edit wrote it or found it there; decrypting
/// gives it without its trailing whitespace, which is the same. An edit of
/// that content that hands `edited` back again leaves the artifact as it is.
pub proof fn lemma_edit_idempotent(data: Seq<char>, edited: Seq<char>)
    ensures
        match edit_outcome(data, edited) {
            EditOutcomeView::Unchanged => data == normalized(edited),
            EditOutcomeView::Changed(content) => content == normalized(edited),
        },
        edit_outcome(normalized(edited), edited) == EditOutcomeView::Unchanged,
        edit_outcome(trim_end(normalized(edited)), edited) == EditOutcomeView::Unchanged,
{
    lemma_normalized_is_trimmed(edited);
}

/// A text that is encrypted and decrypted comes back without its trailing
/// whitespace, provided that the cipher tool, on decrypting, writes out the
/// bytes that it was given to encrypt.
pub proof fn lemma_decrypt_gives_back(text: Seq<char>, stderr: Seq<u8>)
    ensures
        decrypted(Some(CipherOutputView { success: true, stdout: encode_utf8(text), stderr }))
            == Ok::<Seq<char>, CodecErrorView>(trim_end(text)),
{
    encode_utf8_valid_utf8(text);
    encode_utf8_decode_utf8(text);
}

/// Bytes that are encrypted and decrypted come back as the text that they
/// encode, without its trailing whitespace, provided that the cipher tool,
/// on decrypting, writes out the bytes that it was given to encrypt.
pub proof fn lemma_decrypt_gives_back_bytes(payload: Seq<u8>, stderr: Seq<u8>)
    requires
        valid_utf8(payload),
    ensures
        decrypted(Some(CipherOutputView { success: true, stdout: payload, stderr })) == Ok::<
            Seq<char>,
            CodecErrorView,
        >(trim_end(decode_utf8(payload))),
{
}

/// The keeper of the master passphrase, by where it stands.
#[derive(Debug, Clone, PartialEq, Eq)]
pub enum PassphraseGate {
    /// The passphrase artifact is being decrypted.
    Unlocking,
    /// A new passphrase is being asked for.
    Asking,
    /// The passphrase artifact is being written from this passphrase.
    Creating(String),
    /// The passphrase was handed out.
    Done,
    /// The passphrase could not be handed out.
    Failed,
}

/// What happened at the keeper's request.
#[derive(Debug, PartialEq, Eq)]
pub enum GateEvent {
    /// The passphrase artifact was decrypted, or could not be.
    Decrypted(Result<String, CodecError>),
    /// A new passphrase was entered, and entered again.
    Entered(String, String),
    /// The passphrase artifact was written, or could not be.
    Created(Result<(), CodecError>),
}

/// What the keeper asks for, or how it ends.
#[derive(Debug, Clone, PartialEq, Eq)]
pub enum GateAction {
    /// Decrypt the passphrase artifact without handing the cipher tool a
    /// passphrase: it uses the key it holds, or asks for it itself.
    Decrypt,
    /// Ask for a new passphrase and for its confirmation, without echo.
    Prompt,
    /// Encrypt this passphrase under itself into the passphrase artifact.
    Create(String),
    /// This is the passphrase.
    Open(String),
    /// There is no passphrase to hand out.
    Fail(CodecError),
}

/// A `PassphraseGate` as mathematical values.
pub enum PassphraseGateView {
    Unlocking,
    Asking,
    Creating(Seq<char>),
    Done,
    Failed,
}

/// A `GateEvent` as mathematical values.
pub enum GateEventView {
    Decrypted(Result<Seq<char>, CodecErrorView>),
    Entered(Seq<char>, Seq<char>),
    Created(Result<(), CodecErrorView>),
}

/// A `GateAction` as mathematical values.
pub enum GateActionView {
    Decrypt,
    Prompt,
    Create(Seq<char>),
    Open(Seq<char>),
    Fail(CodecErrorView),
}

impl View for PassphraseGate {
    type V = PassphraseGateView;

    open spec fn view(&self) -> PassphraseGateView {
        match self {
            PassphraseGate::Unlocking => PassphraseGateView::Unlocking,
            PassphraseGate::Asking => PassphraseGateView::Asking,
            PassphraseGate::Creating(passphrase) => PassphraseGateView::Creating(passphrase@),
            PassphraseGate::Done => PassphraseGateView::Done,
            PassphraseGate::Failed => PassphraseGateView::Failed,
        }
    }
}

impl View for GateEvent {
    type V = GateEventView;

    open spec fn view(&self) -> GateEventView {
        match self {
            GateEvent::Decrypted(result) => GateEventView::Decrypted(view_result(*result)),
            GateEvent::Entered(first, second) => GateEventView::Entered(first@, second@),
            GateEvent::Created(result) => GateEventView::Created(view_result(*result)),
        }
    }
}

impl View for GateAction {
    type V = GateActionView;

    open spec fn view(&self) -> GateActionView {
        match self {
            GateAction::Decrypt => GateActionView::Decrypt,
            GateAction::Prompt => GateActionView::Prompt,
            GateAction::Create(passphrase) => GateActionView::Create(passphrase@),
            GateAction::Open(passphrase) => GateActionView::Open(passphrase@),
            GateAction::Fail(e) => GateActionView::Fail(e@),
        }
    }
}

/// What is reported where an event comes that was not asked for.
pub open spec fn out_of_turn() -> Seq<char> {
    "event out of turn"@
}

/// Where the keeper starts and what it asks for first: an existing passphrase
/// artifact is decrypted, a missing one is created from a new passphrase.
pub open spec fn gate_start(found: bool) -> (PassphraseGateView, GateActionView) {
    if found {
        (PassphraseGateView::Unlocking, GateActionView::Decrypt)
    } else {
        (PassphraseGateView::Asking, GateActionView::Prompt)
    }
}

/// Where the keeper stands after `event` and what it asks for next.
///
/// A decrypted artifact gives the passphrase that it held. Two entries that
/// are the same make the passphrase, and the artifact is created from it;
/// two that differ are asked for again. Once the artifact is written, the
/// passphrase that was entered is handed out. A failure to decrypt or to
/// write ends in failure, and so does an event that was not asked for,
/// unless the passphrase was handed out already.
pub open spec fn gate_step(gate: PassphraseGateView, event: GateEventView) -> (
    PassphraseGateView,
    GateActionView,
) {
    match (gate, event) {
        (PassphraseGateView::Unlocking, GateEventView::Decrypted(Ok(passphrase))) => (
            PassphraseGateView::Done,
            GateActionView::Open(passphrase),
        ),
        (PassphraseGateView::Unlocking, GateEventView::Decrypted(Err(e))) => (
            PassphraseGateView::Failed,
            GateActionView::Fail(e),
        ),
        (PassphraseGateView::Asking, GateEventView::Entered(first, second)) => if first == second {
            (PassphraseGateView::Creating(first), GateActionView::Create(first))
        } else {
            (PassphraseGateView::Asking, GateActionView::Prompt)
        },
        (PassphraseGateView::Creating(passphrase), GateEventView::Created(Ok(_))) => (
            PassphraseGateView::Done,
            GateActionView::Open(passphrase),
        ),
        (PassphraseGateView::Creating(_), GateEventView::Created(Err(e))) => (
            PassphraseGateView::Failed,
            GateActionView::Fail(e),
        ),
        (PassphraseGateView::Done, _) => (
            PassphraseGateView::Done,
            GateActionView::Fail(CodecErrorView::Io(out_of_turn())),
        ),
        _ => (PassphraseGateView::Failed, GateActionView::Fail(CodecErrorView::Io(out_of_turn()))),
    }
}

/// Starts the keeper of the master passphrase. `found` says whether
/// the passphrase artifact exists.
pub fn get_passphrase(found: bool) -> (r: (PassphraseGate, GateAction))
    ensures
        (r.0@, r.1@) == gate_start(found),
{
    if found {
        (PassphraseGate::Unlocking, GateAction::Decrypt)
    } else {
        (PassphraseGate::Asking, GateAction::Prompt)
    }
}

/// Starts the keeper at the point where a new passphrase is set, whether or
/// not a passphrase artifact exists.
pub fn set_passphrase() -> (r: (PassphraseGate, GateAction))
    ensures
        (r.0@, r.1@) == gate_start(false),
{
    (PassphraseGate::Asking, GateAction::Prompt)
}

impl PassphraseGate {
    /// Takes what happened at the keeper's request and says what comes next.
    pub fn step(self, event: GateEvent) -> (r: (PassphraseGate, GateAction))
        ensures
            (r.0@, r.1@) == gate_step(self@, event@),
    {
        match (self, event) {
            (PassphraseGate::Unlocking, GateEvent::Decrypted(Ok(passphrase))) => (
                PassphraseGate::Done,
                GateAction::Open(passphrase),
            ),
            (PassphraseGate::Unlocking, GateEvent::Decrypted(Err(e))) => (
                PassphraseGate::Failed,
                GateAction::Fail(e),
            ),
            (PassphraseGate::Asking, GateEvent::Entered(first, second)) => {
                if first == second {
                    (PassphraseGate::Creating(first.clone()), GateAction::Create(first))
                } else {
                    (PassphraseGate::Asking, GateAction::Prompt)
                }
            },
            (PassphraseGate::Creating(passphrase), GateEvent::Created(Ok(_))) => (
                PassphraseGate::Done,
                GateAction::Open(passphrase),
            ),
            (PassphraseGate::Creating(_), GateEvent::Created(Err(e))) => (
                PassphraseGate::Failed,
                GateAction::Fail(e),
            ),
            (PassphraseGate::Done, _) => (
                PassphraseGate::Done,
                GateAction::Fail(CodecError::Io("event out of turn".to_string())),
            ),
            _ => (
                PassphraseGate::Failed,
                GateAction::Fail(CodecError::Io("event out of turn".to_string())),
            ),
        }
    }
}

/// A passphrase that does not end in whitespace is handed out as it was
/// entered: creating the artifact hands out the passphrase that was entered,
/// and unlocking the artifact later hands out the same, provided that the
/// cipher tool, on decrypting, writes out the bytes that it was given to
/// encrypt.
pub proof fn lemma_passphrase_round_trip(passphrase: Seq<char>, stderr: Seq<u8>)
    requires
        trim_end(passphrase) == passphrase,
    ensures
        gate_step(gate_start(false).0, GateEventView::Entered(passphrase, passphrase)) == (
            PassphraseGateView::Creating(passphrase),
            GateActionView::Create(passphrase),
        ),
        gate_step(PassphraseGateView::Creating(passphrase), GateEventView::Created(Ok(()))) == (
            PassphraseGateView::Done,
            GateActionView::Open(passphrase),
        ),
        decrypted(
            Some(CipherOutputView { success: true, stdout: encode_utf8(passphrase), stderr }),
        ) == Ok::<Seq<char>, CodecErrorView>(passphrase),
        gate_step(
            gate_start(true).0,
            GateEventView::Decrypted(
                decrypted(
                    Some(
                        CipherOutputView { success: true, stdout: encode_utf8(passphrase), stderr },
                    ),
                ),
            ),
        ) == (PassphraseGateView::Done, GateActionView::Open(passphrase)),
{
    lemma_decrypt_gives_back(passphrase, stderr);
}

} // verus!
