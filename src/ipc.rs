//! The request/response protocol between the web view and the native side.
//!
//! The interface sends an envelope with a command name, its arguments and two
//! continuation handles. The native side answers by evaluating a script that
//! settles exactly one of the two handles.

use vstd::prelude::*;
use crate::channels::{id_from_fields, ChannelId};
use crate::text::digit_char;
use crate::codec::{callback_script, format_callback};
use crate::events::EventLoopMessage;

verus! {

#[verifier::external_type_specification]
#[verifier::external_body]
pub struct ExError(serde_json::Error);

/// A lower-case hexadecimal digit.
pub open spec fn hex_digit(d: nat) -> char {
    if d < 10 {
        digit_char(d)
    } else if d == 10 {
        'a'
    } else if d == 11 {
        'b'
    } else if d == 12 {
        'c'
    } else if d == 13 {
        'd'
    } else if d == 14 {
        'e'
    } else {
        'f'
    }
}

/// One character inside a JSON string literal: quote and backslash escaped,
/// control characters written as `\b`, `\t`, `\n`, `\f`, `\r` or `\u00XX`.
pub open spec fn json_char(c: char) -> Seq<char> {
    if c == '"' {
        seq!['\\', '"']
    } else if c == '\\' {
        seq!['\\', '\\']
    } else if c == '\x08' {
        seq!['\\', 'b']
    } else if c == '\t' {
        seq!['\\', 't']
    } else if c == '\n' {
        seq!['\\', 'n']
    } else if c == '\x0c' {
        seq!['\\', 'f']
    } else if c == '\r' {
        seq!['\\', 'r']
    } else if (c as u32) < 0x20 {
        seq!['\\', 'u', '0', '0', hex_digit((c as u32 / 16) as nat), hex_digit((c as u32 % 16) as nat)]
    } else {
        seq![c]
    }
}

/// The characters of `s` as they stand inside a JSON string literal.
pub open spec fn json_escaped(s: Seq<char>) -> Seq<char>
    decreases s.len(),
{
    if s.len() == 0 {
        seq![]
    } else {
        json_escaped(s.drop_last()) + json_char(s.last())
    }
}

/// The JSON string literal that serde_json writes for a text.
pub open spec fn json_string_of(s: Seq<char>) -> Seq<char> {
    seq!['"'] + json_escaped(s) + seq!['"']
}

/// Relies on `serde_json::to_string` for a `str`: the text in double
/// quotes, each character escaped by serde_json's table. Serializing a
/// `str` into memory cannot fail.
#[verifier::external_body]
pub(crate) fn json_string(s: &str) -> (r: String)
    ensures
        r@ == json_string_of(s@),
{
    serde_json::to_string(s).unwrap()
}

/// Relies on serde_json's `Display` for `Error`: the error's message.
#[verifier::external_body]
fn error_message(error: &serde_json::Error) -> String {
    error.to_string()
}

/// A decoded call argument: integers and arrays as the library reads them,
/// any other JSON value as its text.
pub enum Argument {
    Integer(i128),
    Array(Vec<Argument>),
    Json(String),
}

/// The integer at position `i`, if there is one there.
pub open spec fn integer_at(args: Seq<Argument>, i: int) -> Option<int> {
    if 0 <= i < args.len() {
        match args[i] {
            Argument::Integer(v) => Some(v as int),
            _ => None,
        }
    } else {
        None
    }
}

/// Whether `v` is an integer from `min` to `max`.
pub open spec fn integer_within(v: Option<int>, min: int, max: int) -> bool {
    v matches Some(x) && min <= x <= max
}

/// The integer at position `i` where it lies from `min` to `max`.
pub fn integer_in(args: &Vec<Argument>, i: usize, min: i128, max: i128) -> (r: Option<i128>)
    ensures
        r == (if integer_within(integer_at(args@, i as int), min as int, max as int) {
            Some(integer_at(args@, i as int)->0 as i128)
        } else {
            None::<i128>
        }),
{
    if i >= args.len() {
        return None;
    }
    match &args[i] {
        Argument::Integer(v) => {
            if min <= *v && *v <= max {
                Some(*v)
            } else {
                None
            }
        },
        _ => None,
    }
}

/// A continuation handle minted by the interface for one pending call.
#[derive(Debug, Clone, Copy, PartialEq, Eq, Structural)]
pub struct CallbackFn(pub usize);

/// A request to open a channel: its name, and the handle to answer on.
#[derive(Debug, Clone)]
pub struct ChannelHandshakeRequest(pub String, pub CallbackFn);

/// One envelope as the interface sent it.
pub struct IpcPayload {
    pub callback: CallbackFn,
    pub error: CallbackFn,
    pub command: String,
    pub inner: Argument,
}

/// The error value of a rejected call, as JSON text.
pub struct InvokeError(pub String);

impl InvokeError {
    /// The error that serde_json reported, as a JSON string.
    pub fn from_serde_json(error: serde_json::Error) -> (r: InvokeError)
        ensures
            exists|message: Seq<char>| r.0@ == #[trigger] json_string_of(message),
    {
        let message = error_message(&error);
        InvokeError(json_string(message.as_str()))
    }

    /// A plain message, as a JSON string.
    pub fn from_message(message: &str) -> (r: InvokeError)
        ensures
            r.0@ == json_string_of(message@),
    {
        InvokeError(json_string(message))
    }
}

/// The outcome of a call: a value or an error, each as JSON text.
pub enum InvokeResponse {
    Resolved(String),
    Rejected(InvokeError),
}

impl InvokeResponse {
    /// The outcome as a `Result` of JSON texts.
    pub fn into_result(self) -> (r: Result<String, String>)
        ensures
            match self {
                InvokeResponse::Resolved(v) => r == Ok::<String, String>(v),
                InvokeResponse::Rejected(e) => r == Err::<String, String>(e.0),
            },
    {
        match self {
            InvokeResponse::Resolved(v) => Ok(v),
            InvokeResponse::Rejected(e) => Err(e.0),
        }
    }
}

/// The script that settles `success` with an `Ok` value, or `error` with an
/// `Err` value.
pub open spec fn result_script(result: Result<Seq<char>, Seq<char>>, success: CallbackFn, error: CallbackFn) -> Seq<char> {
    match result {
        Ok(v) => callback_script(success.0 as nat, v),
        Err(e) => callback_script(error.0 as nat, e),
    }
}

/// Builds the script that settles one of the two handles with `result`.
pub fn format_callback_result(result: Result<String, String>, success: CallbackFn, error: CallbackFn) -> (r: String)
    ensures
        r@ == result_script(
            match result { Ok(v) => Ok(v@), Err(e) => Err(e@) },
            success,
            error,
        ),
{
    match result {
        Ok(v) => format_callback(success.0, v.as_str()),
        Err(e) => format_callback(error.0, e.as_str()),
    }
}

/// The right to settle one pending call, once. Only the routing of an
/// envelope makes one; settling consumes it, and it cannot be copied.
pub struct InvokeResolver {
    callback: CallbackFn,
    error: CallbackFn,
}

impl InvokeResolver {
    /// The handle that a success settles.
    pub closed spec fn success_handle(&self) -> CallbackFn {
        self.callback
    }

    /// The handle that a failure settles.
    pub closed spec fn error_handle(&self) -> CallbackFn {
        self.error
    }

    /// The handle that a success settles.
    pub fn callback(&self) -> (r: CallbackFn)
        ensures
            r == self.success_handle(),
    {
        self.callback
    }

    /// The handle that a failure settles.
    pub fn error(&self) -> (r: CallbackFn)
        ensures
            r == self.error_handle(),
    {
        self.error
    }

    /// The script that settles the call with the value whose JSON text is
    /// `value`.
    pub fn resolve(self, value: &str) -> (r: String)
        ensures
            r@ == callback_script(self.success_handle().0 as nat, value@),
    {
        format_callback(self.callback.0, value)
    }

    /// The script that fails the call with the error whose JSON text is
    /// `value`.
    pub fn reject(self, value: &str) -> (r: String)
        ensures
            r@ == callback_script(self.error_handle().0 as nat, value@),
    {
        format_callback(self.error.0, value)
    }

    /// The script that settles the call with `response`: its value on the
    /// success handle, its error on the error handle.
    pub fn settle(self, response: InvokeResponse) -> (r: String)
        ensures
            r@ == match response {
                InvokeResponse::Resolved(v) => callback_script(self.success_handle().0 as nat, v@),
                InvokeResponse::Rejected(e) => callback_script(self.error_handle().0 as nat, e.0@),
            },
    {
        InvokeResolver::return_response(response, self.callback, self.error)
    }

    /// The script that settles the call that `success_callback` and
    /// `error_callback` belong to with `response`.
    pub fn return_response(response: InvokeResponse, success_callback: CallbackFn, error_callback: CallbackFn) -> (r: String)
        ensures
            r@ == match response {
                InvokeResponse::Resolved(v) => callback_script(success_callback.0 as nat, v@),
                InvokeResponse::Rejected(e) => callback_script(error_callback.0 as nat, e.0@),
            },
    {
        format_callback_result(response.into_result(), success_callback, error_callback)
    }
}

/// The commands that the interface may send.
#[derive(Debug, Clone, Copy, PartialEq, Eq, Structural)]
pub enum Command {
    SetInitialized,
    EstablishChannel,
    CloseChannel,
    GenerateMnemonicPhrase,
    FromMnemonicPhrase,
    GetWordlist,
    WindowDragMove,
    WindowShowSysMenu,
}

/// The command that `name` stands for, if any.
pub open spec fn command_of(name: Seq<char>) -> Option<Command> {
    if name == "setInitialized"@ {
        Some(Command::SetInitialized)
    } else if name == "establishChannel"@ {
        Some(Command::EstablishChannel)
    } else if name == "closeChannel"@ {
        Some(Command::CloseChannel)
    } else if name == "generateMnemonicPhrase"@ {
        Some(Command::GenerateMnemonicPhrase)
    } else if name == "fromMnemonicPhrase"@ {
        Some(Command::FromMnemonicPhrase)
    } else if name == "getWordlist"@ {
        Some(Command::GetWordlist)
    } else if name == "windowDragMove"@ {
        Some(Command::WindowDragMove)
    } else if name == "windowShowSysMenu"@ {
        Some(Command::WindowShowSysMenu)
    } else {
        None
    }
}

impl Command {
    /// The command named `name`, matched exactly.
    pub fn from_name(name: &str) -> (r: Option<Command>)
        ensures
            r == command_of(name@),
    {
        let name = String::from_str(name);
        if name == String::from_str("setInitialized") {
            Some(Command::SetInitialized)
        } else if name == String::from_str("establishChannel") {
            Some(Command::EstablishChannel)
        } else if name == String::from_str("closeChannel") {
            Some(Command::CloseChannel)
        } else if name == String::from_str("generateMnemonicPhrase") {
            Some(Command::GenerateMnemonicPhrase)
        } else if name == String::from_str("fromMnemonicPhrase") {
            Some(Command::FromMnemonicPhrase)
        } else if name == String::from_str("getWordlist") {
            Some(Command::GetWordlist)
        } else if name == String::from_str("windowDragMove") {
            Some(Command::WindowDragMove)
        } else if name == String::from_str("windowShowSysMenu") {
            Some(Command::WindowShowSysMenu)
        } else {
            None
        }
    }
}

/// The message with which an unknown command is rejected.
pub open spec fn unknown_command_message(command: Seq<char>) -> Seq<char> {
    "command "@ + command + " not found"@
}

/// Builds the message with which the unknown command `command` is rejected.
pub fn command_not_found(command: &str) -> (r: String)
    ensures
        r@ == unknown_command_message(command@),
{
    let mut message = String::from_str("command ");
    message.append(command);
    message.append(" not found");
    message
}

/// The rejection of an unknown command names the command: its text stands
/// whole in the message.
pub proof fn lemma_unknown_command_named(command: Seq<char>)
    ensures
        unknown_command_message(command).subrange(8, 8 + command.len() as int) == command,
{
    reveal_strlit("command ");
    assert(unknown_command_message(command).subrange(8, 8 + command.len() as int) =~= command);
}

/// A call for a command handler.
pub struct InvokeMessage {
    pub command: String,
    pub payload: Argument,
}

/// A call together with the right to settle it.
pub struct Invoke {
    pub message: InvokeMessage,
    pub resolver: InvokeResolver,
}

/// An immediate answer: the script to evaluate in the requesting window,
/// after `event`, if any, has been posted to the control loop.
pub struct Reply {
    pub event: Option<EventLoopMessage>,
    pub script: String,
}

/// What to do with one envelope.
pub enum Dispatch {
    /// Answer now.
    Reply(Reply),
    /// Open a channel: decode `payload` as a handshake and pass the outcome
    /// to `finish_handshake`.
    Handshake { payload: Argument, resolver: InvokeResolver },
    /// Run the handler of `command`.
    Invoke { command: Command, invoke: Invoke },
}

/// Routes one envelope. The ready signal is answered at once and posts
/// `WebAppInit`; an unknown command is rejected with a message that names it.
pub fn handle_invoke_payload(payload: IpcPayload) -> (r: Dispatch)
    ensures
        match command_of(payload.command@) {
            Some(Command::SetInitialized) => r matches Dispatch::Reply(reply)
                && reply.event matches Some(EventLoopMessage::WebAppInit)
                && reply.script@ == callback_script(payload.callback.0 as nat, "null"@),
            Some(Command::EstablishChannel) => r matches Dispatch::Handshake { payload: p, resolver }
                && p == payload.inner
                && resolver.success_handle() == payload.callback && resolver.error_handle() == payload.error,
            Some(c) => r matches Dispatch::Invoke { command, invoke }
                && command == c
                && invoke.message.command@ == payload.command@
                && invoke.message.payload == payload.inner
                && invoke.resolver.success_handle() == payload.callback
                && invoke.resolver.error_handle() == payload.error,
            None => r matches Dispatch::Reply(reply)
                && reply.event is None
                && reply.script@ == callback_script(
                    payload.error.0 as nat,
                    json_string_of(unknown_command_message(payload.command@)),
                ),
        },
{
    let command = Command::from_name(payload.command.as_str());
    match command {
        Some(Command::SetInitialized) => {
            let script = InvokeResolver::return_response(
                InvokeResponse::Resolved(String::from_str("null")),
                payload.callback,
                CallbackFn(0),
            );
            Dispatch::Reply(Reply { event: Some(EventLoopMessage::WebAppInit), script })
        },
        Some(Command::EstablishChannel) => Dispatch::Handshake {
            payload: payload.inner,
            resolver: InvokeResolver { callback: payload.callback, error: payload.error },
        },
        Some(c) => Dispatch::Invoke {
            command: c,
            invoke: Invoke {
                message: InvokeMessage { command: payload.command, payload: payload.inner },
                resolver: InvokeResolver { callback: payload.callback, error: payload.error },
            },
        },
        None => {
            let message = command_not_found(payload.command.as_str());
            let resolver = InvokeResolver { callback: payload.callback, error: payload.error };
            let script = resolver.reject(json_string(message.as_str()).as_str());
            Dispatch::Reply(Reply { event: None, script })
        },
    }
}

/// Answers a channel handshake whose payload decoded to `decoded`: on
/// success the control loop is told to open the channel and the call is
/// resolved with `null`; else the call is rejected with the decoding error.
pub fn finish_handshake(resolver: InvokeResolver, decoded: Result<ChannelHandshakeRequest, String>) -> (r: Reply)
    ensures
        match decoded {
            Ok(request) => r.event matches Some(EventLoopMessage::EstablishChannel(req))
                && req.0@ == request.0@ && req.1 == request.1
                && r.script@ == callback_script(resolver.success_handle().0 as nat, "null"@),
            Err(message) => r.event is None
                && r.script@ == callback_script(resolver.error_handle().0 as nat, json_string_of(message@)),
        },
{
    match decoded {
        Ok(request) => {
            let script = InvokeResolver::return_response(
                InvokeResponse::Resolved(String::from_str("null")),
                resolver.callback,
                resolver.error,
            );
            Reply { event: Some(EventLoopMessage::EstablishChannel(request)), script }
        },
        Err(message) => {
            let script = InvokeResolver::return_response(
                InvokeResponse::Rejected(InvokeError::from_message(message.as_str())),
                resolver.callback,
                resolver.error,
            );
            Reply { event: None, script }
        },
    }
}

/// The error text for a call whose payload is not an array.
pub open spec fn not_an_array_message() -> Seq<char> {
    "payload has to be an array."@
}

/// The positional arguments of a call, with its resolver; if the payload is
/// not an array, the script that rejects the call instead.
pub fn deserialize_arguments(invoke: Invoke) -> (r: Result<(Vec<Argument>, InvokeResolver), String>)
    ensures
        match invoke.message.payload {
            Argument::Array(items) => r == Ok::<(Vec<Argument>, InvokeResolver), String>((items, invoke.resolver)),
            _ => r matches Err(script) && script@ == callback_script(
                invoke.resolver.error_handle().0 as nat,
                json_string_of(not_an_array_message()),
            ),
        },
{
    match invoke.message.payload {
        Argument::Array(items) => Ok((items, invoke.resolver)),
        _ => {
            let message = json_string("payload has to be an array.");
            Err(invoke.resolver.reject(message.as_str()))
        },
    }
}

/// Whether `d1`, `d2`, `d3` and the first eight of `d4` fit the fields of a
/// UUID: 32, 16 and 16 bits, and eight bytes.
pub open spec fn fields_fit(d1: u64, d2: u64, d3: u64, d4: Seq<u64>) -> bool {
    &&& d1 <= u32::MAX
    &&& d2 <= u16::MAX
    &&& d3 <= u16::MAX
    &&& d4.len() >= 8
    &&& forall|k: int| 0 <= k < 8 ==> #[trigger] d4[k] <= u8::MAX
}

/// The UUID with the given fields, where they fit.
#[verifier::spinoff_prover]
pub fn channel_id_from_parts(d1: u64, d2: u64, d3: u64, d4: &Vec<u64>) -> (r: Option<ChannelId>)
    ensures
        r == (if fields_fit(d1, d2, d3, d4@) {
            Some(ChannelId(id_from_fields(d1 as int, d2 as int, d3 as int, d4@.take(8).map_values(|b: u64| b as int))))
        } else {
            None::<ChannelId>
        }),
{
    if d1 > u32::MAX as u64 || d2 > u16::MAX as u64 || d3 > u16::MAX as u64 || d4.len() < 8 {
        return None;
    }
    let mut k: usize = 0;
    while k < 8
        invariant
            d4@.len() >= 8,
            k <= 8,
            forall|j: int| 0 <= j < k ==> #[trigger] d4@[j] <= u8::MAX,
        decreases 8 - k,
    {
        if d4[k] > u8::MAX as u64 {
            return None;
        }
        k = k + 1;
    }
    let ghost bytes = d4@.take(8).map_values(|b: u64| b as int);
    let high: u128 = (d1 as u128) * 0x1_0000_0000_0000_0000_0000_0000
        + (d2 as u128) * 0x1_0000_0000_0000_0000_0000
        + (d3 as u128) * 0x1_0000_0000_0000_0000;
    let low: u128 = (d4[0] as u128) * 0x0100_0000_0000_0000
        + (d4[1] as u128) * 0x0001_0000_0000_0000
        + (d4[2] as u128) * 0x0000_0100_0000_0000
        + (d4[3] as u128) * 0x0000_0001_0000_0000
        + (d4[4] as u128) * 0x0000_0000_0100_0000
        + (d4[5] as u128) * 0x0000_0000_0001_0000
        + (d4[6] as u128) * 0x0000_0000_0000_0100
        + (d4[7] as u128);
    assert(low < 0x1_0000_0000_0000_0000);
    let v: u128 = high + low;
    proof {
        assert(forall|k: int| 0 <= k < 8 ==> bytes[k] == d4@[k] as int);
        assert(high as int + low as int == id_from_fields(d1 as int, d2 as int, d3 as int, bytes) as int);
    }
    Some(ChannelId(v))
}

/// The UUID that the arguments of a close request carry: the first argument
/// is `[d1, d2, d3, [b0, ..., b7]]`, with fields that fit 32, 16 and 16 bits
/// and eight bytes. Further items are ignored.
pub open spec fn uuid_argument(args: Seq<Argument>) -> Option<ChannelId> {
    if args.len() == 0 {
        None
    } else {
        match args[0] {
            Argument::Array(fields) => {
                let f = fields@;
                if f.len() >= 4 && integer_within(integer_at(f, 0), 0, u32::MAX as int)
                    && integer_within(integer_at(f, 1), 0, u16::MAX as int)
                    && integer_within(integer_at(f, 2), 0, u16::MAX as int) {
                    match f[3] {
                        Argument::Array(bytes) => {
                            let b = bytes@;
                            if b.len() >= 8 && forall|k: int| 0 <= k < 8 ==> #[trigger] integer_within(integer_at(b, k), 0, 255) {
                                Some(ChannelId(id_from_fields(
                                    integer_at(f, 0)->0,
                                    integer_at(f, 1)->0,
                                    integer_at(f, 2)->0,
                                    Seq::new(8, |k: int| integer_at(b, k)->0),
                                )))
                            } else {
                                None
                            }
                        },
                        _ => None,
                    }
                } else {
                    None
                }
            },
            _ => None,
        }
    }
}

/// Reads the UUID that the arguments of a close request carry.
pub fn parse_channel_id(arguments: &Vec<Argument>) -> (r: Option<ChannelId>)
    ensures
        r == uuid_argument(arguments@),
{
    if arguments.len() == 0 {
        return None;
    }
    let fields = match &arguments[0] {
        Argument::Array(fields) => fields,
        _ => return None,
    };
    if fields.len() < 4 {
        return None;
    }
    let d1 = match integer_in(fields, 0, 0, u32::MAX as i128) { Some(d) => d as u64, None => return None };
    let d2 = match integer_in(fields, 1, 0, u16::MAX as i128) { Some(d) => d as u64, None => return None };
    let d3 = match integer_in(fields, 2, 0, u16::MAX as i128) { Some(d) => d as u64, None => return None };
    let bytes = match &fields[3] {
        Argument::Array(bytes) => bytes,
        _ => return None,
    };
    if bytes.len() < 8 {
        return None;
    }
    assert(arguments@[0] == Argument::Array(*fields));
    assert(fields@[3] == Argument::Array(*bytes));
    let mut d4: Vec<u64> = Vec::new();
    let mut k: usize = 0;
    while k < 8
        invariant
            k <= 8,
            bytes@.len() >= 8,
            arguments@[0] == Argument::Array(*fields),
            fields@[3] == Argument::Array(*bytes),
            d4@.len() == k,
            forall|j: int| 0 <= j < k ==> integer_within(#[trigger] integer_at(bytes@, j), 0, 255)
                && d4@[j] as int == integer_at(bytes@, j)->0,
        decreases 8 - k,
    {
        match integer_in(bytes, k, 0, 255) {
            Some(b) => d4.push(b as u64),
            None => {
                assert(!integer_within(integer_at(bytes@, k as int), 0, 255));
                assert(!(forall|j: int| 0 <= j < 8 ==> #[trigger] integer_within(integer_at(bytes@, j), 0, 255)));
                return None;
            },
        }
        k = k + 1;
    }
    assert(d4@.take(8).map_values(|b: u64| b as int) =~= Seq::new(8, |k: int| integer_at(bytes@, k)->0));
    channel_id_from_parts(d1, d2, d3, &d4)
}

/// The error text for a close request whose arguments carry no UUID.
pub open spec fn bad_channel_id_message() -> Seq<char> {
    "closeChannel expects a channel id"@
}

/// Handles `closeChannel`: where the arguments carry a UUID, posts the close
/// of that channel and resolves the call with `null`; else rejects the call.
pub fn ipc_close_channel(invoke: Invoke) -> (r: Reply)
    ensures
        match invoke.message.payload {
            Argument::Array(args) => match uuid_argument(args@) {
                Some(id) => r.event matches Some(EventLoopMessage::CloseChannel(c)) && c == id
                    && r.script@ == callback_script(invoke.resolver.success_handle().0 as nat, "null"@),
                None => r.event is None
                    && r.script@ == callback_script(
                        invoke.resolver.error_handle().0 as nat,
                        json_string_of(bad_channel_id_message()),
                    ),
            },
            _ => r.event is None
                && r.script@ == callback_script(
                    invoke.resolver.error_handle().0 as nat,
                    json_string_of(not_an_array_message()),
                ),
        },
{
    let (arguments, resolver) = match deserialize_arguments(invoke) {
        Ok(parts) => parts,
        Err(script) => return Reply { event: None, script },
    };
    match parse_channel_id(&arguments) {
        Some(id) => Reply { event: Some(EventLoopMessage::CloseChannel(id)), script: resolver.resolve("null") },
        None => {
            let message = json_string("closeChannel expects a channel id");
            Reply { event: None, script: resolver.reject(message.as_str()) }
        },
    }
}

/// A call whose answer waits on posting `event` to the control loop.
pub struct Post {
    pub event: EventLoopMessage,
    pub resolver: InvokeResolver,
}

/// Settles a call after its post: with `null` if the post went through,
/// else with the post's error text.
pub fn settle_post(resolver: InvokeResolver, outcome: Result<(), String>) -> (r: String)
    ensures
        match outcome {
            Ok(_) => r@ == callback_script(resolver.success_handle().0 as nat, "null"@),
            Err(e) => r@ == callback_script(resolver.error_handle().0 as nat, json_string_of(e@)),
        },
{
    match outcome {
        Ok(_) => resolver.resolve("null"),
        Err(e) => {
            let message = json_string(e.as_str());
            resolver.reject(message.as_str())
        },
    }
}

} // verus!
