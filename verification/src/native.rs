//! What the native library hands over and is handed: tensor views and bindings, operation
//! descriptors, status and names.
use crate::bytes::same_items;
use crate::text::joined;
use vstd::prelude::*;
use vstd::slice::slice_to_vec;

verus! {

broadcast use vstd::string::group_string_axioms;

/// The element types that the operations of this library take, and every other one by its code.
#[derive(Clone, Copy, Debug, PartialEq, Eq, Structural)]
pub enum DType {
    Bf16,
    I32,
    Other(u32),
}

/// How the elements of a tensor are encoded: as they are, or in another way by its code.
#[derive(Clone, Copy, Debug, PartialEq, Eq, Structural)]
pub enum Encoding {
    Unquantized,
    Other(u32),
}

/// A tensor as an operation sees it.
#[derive(Debug)]
pub struct TensorView {
    pub dtype: DType,
    pub encoding: Encoding,
    pub shape: Vec<u64>,
    pub strides: Vec<u64>,
}

/// What a tensor view says.
pub struct TensorShape {
    pub dtype: DType,
    pub encoding: Encoding,
    pub shape: Seq<u64>,
    pub strides: Seq<u64>,
}

impl View for TensorView {
    type V = TensorShape;

    open spec fn view(&self) -> TensorShape {
        TensorShape {
            dtype: self.dtype,
            encoding: self.encoding,
            shape: self.shape@,
            strides: self.strides@,
        }
    }
}

/// What a list of tensor views says.
pub open spec fn shapes_of(views: Seq<TensorView>) -> Seq<TensorShape> {
    Seq::new(views.len(), |i: int| views[i]@)
}

impl TensorView {
    /// Whether two views say the same.
    pub fn same(&self, other: &TensorView) -> (out: bool)
        ensures
            out == (self@ == other@),
    {
        self.dtype == other.dtype && self.encoding == other.encoding && same_items(
            self.shape.as_slice(),
            other.shape.as_slice(),
        ) && same_items(self.strides.as_slice(), other.strides.as_slice())
    }

    /// A copy of a view.
    pub fn copy(&self) -> (out: TensorView)
        ensures
            out@ == self@,
    {
        TensorView {
            dtype: self.dtype,
            encoding: self.encoding,
            shape: slice_to_vec(self.shape.as_slice()),
            strides: slice_to_vec(self.strides.as_slice()),
        }
    }
}

/// A tensor view bound to a device buffer, which the buffer's registry number stands for.
#[derive(Debug)]
pub struct TensorBinding {
    pub buffer: u64,
    pub view: TensorView,
}

/// A binding as the native library reads it.
#[derive(Clone, Copy, Debug)]
pub struct RawBinding {
    pub buffer: u64,
    pub byte_offset: u64,
    pub dtype: u32,
    pub encoding: u32,
    pub rank: u32,
    pub shape: [u64; 8],
    pub stride_elements: [u64; 8],
}

/// The kinds of operations of this library, and every other one by its code.
#[derive(Clone, Copy, Debug, PartialEq, Eq, Structural)]
pub enum SemanticOpKind {
    Argmax,
    AttentionPreprocess,
    Other(u32),
}

/// Whether an operation starts a sequence or goes on with one.
#[derive(Clone, Copy, Debug, PartialEq, Eq, Structural)]
pub enum PositionMode {
    Prefill,
    DecodeContinuation,
}

impl PositionMode {
    /// The name of a mode.
    pub open spec fn text(self) -> Seq<char> {
        match self {
            PositionMode::Prefill => "prefill"@,
            PositionMode::DecodeContinuation => "decode_continuation"@,
        }
    }

    /// The name of a mode.
    pub fn name(self) -> (out: &'static str)
        ensures
            out@ == self.text(),
    {
        match self {
            PositionMode::Prefill => "prefill",
            PositionMode::DecodeContinuation => "decode_continuation",
        }
    }
}

/// What an attention preprocess operation promises beyond its tensors.
#[derive(Clone, Copy, Debug, PartialEq, Eq, Structural)]
pub struct AttentionPreprocessContract {
    pub mode: PositionMode,
    pub start_position: u32,
    pub token_count: u64,
}

/// An operation over tensors, free of any device.
#[derive(Debug)]
pub struct SemanticOpDescriptor {
    pub kind: SemanticOpKind,
    pub inputs: Vec<TensorView>,
    pub outputs: Vec<TensorView>,
    pub contract: Option<AttentionPreprocessContract>,
}

/// Why an operation was refused.
#[derive(Clone, Copy, Debug, PartialEq, Eq, Structural)]
pub enum RuntimeStatus {
    InvalidArgmaxDescriptor,
    InvalidAttentionPreprocessDescriptor,
    InternalError,
    Native(u32),
}

/// A refusal and its message.
#[derive(Debug)]
pub struct RuntimeError {
    pub status: RuntimeStatus,
    pub message: String,
}

impl RuntimeError {
    /// Whether an error has the given status and message.
    pub open spec fn says(self, status: RuntimeStatus, message: Seq<char>) -> bool {
        &&& self.status == status
        &&& self.message@ == message
    }

    /// An error with a fixed message.
    pub fn local(status: RuntimeStatus, message: &str) -> (out: RuntimeError)
        ensures
            out.says(status, message@),
    {
        RuntimeError { status, message: message.to_owned() }
    }

    /// An error that tells what was found wrong.
    pub fn caused(status: RuntimeStatus, message: &str, cause: &str) -> (out: RuntimeError)
        ensures
            out.says(status, message@ + cause@),
    {
        RuntimeError { status, message: joined(message, cause) }
    }
}

/// The bytes that every native descriptor starts with.
pub const DESCRIPTOR_HEADER_BYTES: u32 = 32;

/// The bytes of a native tensor binding.
pub const BINDING_BYTES: u32 = 184;

/// The byte at which the binding of the given place stands in a native descriptor; the place after
/// the last gives the size of the descriptor.
pub fn binding_offset(place: u8) -> (out: u32)
    ensures
        out == DESCRIPTOR_HEADER_BYTES + place * BINDING_BYTES,
{
    DESCRIPTOR_HEADER_BYTES + place as u32 * BINDING_BYTES
}

/// The versions that the native library was built with.
#[derive(Clone, Copy, Debug, PartialEq, Eq, Structural)]
pub struct NativeAbi {
    pub abi_version: u32,
    pub op_version: u32,
}

/// The character with the code of a byte.
pub open spec fn byte_char(byte: i8) -> char {
    (if byte >= 0 {
        byte as int
    } else {
        byte + 256
    }) as char
}

/// The text of a fixed-size name: a character for each byte before the first zero.
pub open spec fn c_text(value: Seq<i8>) -> Seq<char>
    decreases value.len(),
{
    if value.len() == 0 || value[0] == 0 {
        Seq::empty()
    } else {
        seq![byte_char(value[0])] + c_text(value.skip(1))
    }
}

/// A name that has no zero byte keeps all of its characters.
pub proof fn unterminated_names_are_whole(value: Seq<i8>)
    requires
        forall|i: int| 0 <= i < value.len() ==> value[i] != 0,
    ensures
        c_text(value) == Seq::new(value.len(), |i: int| byte_char(value[i])),
    decreases value.len(),
{
    if value.len() > 0 {
        unterminated_names_are_whole(value.skip(1));
        assert(c_text(value) =~= Seq::new(value.len(), |i: int| byte_char(value[i])));
    } else {
        assert(c_text(value) =~= Seq::new(value.len(), |i: int| byte_char(value[i])));
    }
}

/// What stands after the first zero byte of a name is not part of it.
pub proof fn names_end_at_the_first_zero(name: Seq<i8>, rest: Seq<i8>)
    ensures
        c_text(name.push(0) + rest) == c_text(name),
    decreases name.len(),
{
    let whole = name.push(0) + rest;
    if name.len() > 0 && name[0] != 0 {
        names_end_at_the_first_zero(name.skip(1), rest);
        assert(whole.skip(1) =~= name.skip(1).push(0) + rest);
        assert(whole[0] == name[0]);
    } else if name.len() > 0 {
        assert(whole[0] == name[0]);
    } else {
        assert(whole[0] == 0);
    }
}

fn char_of_byte(byte: i8) -> (out: char)
    ensures
        out == byte_char(byte),
{
    let code: u8 = if byte >= 0 {
        byte as u8
    } else {
        (byte as i16 + 256) as u8
    };
    code as char
}

/// The text of a fixed-size name.
pub fn read_c_string(value: &[i8]) -> (out: String)
    ensures
        out@ == c_text(value@),
{
    let mut out = String::new();
    let mut i: usize = 0;
    assert(value@.skip(0) =~= value@);
    while i < value.len() && value[i] != 0
        invariant
            i <= value@.len(),
            out@ + c_text(value@.skip(i as int)) == c_text(value@),
        decreases value@.len() - i,
    {
        let ghost rest = value@.skip(i as int);
        out.push(char_of_byte(value[i]));
        assert(rest[0] == value@[i as int]);
        assert(rest.skip(1) =~= value@.skip(i + 1));
        assert(out@ + c_text(rest.skip(1)) =~= c_text(value@));
        i = i + 1;
    }
    assert(c_text(value@.skip(i as int)) =~= Seq::empty());
    assert(out@ =~= c_text(value@));
    out
}

/// The HIP backend, on which operations are prepared.
#[derive(Clone, Copy, Debug)]
pub struct HipBackend;

/// What became of a native call that gives a handle when it succeeds.
pub open spec fn handle_refusal(
    status: Result<(), RuntimeError>,
    handle: Option<u64>,
    null_message: Seq<char>,
) -> Option<(RuntimeStatus, Seq<char>)> {
    match status {
        Err(error) => Some((error.status, error.message@)),
        Ok(()) => match handle {
            Some(_) => None,
            None => Some((RuntimeStatus::InternalError, null_message)),
        },
    }
}

/// The handle that a native call gave: its own error first, and an internal error where it claims
/// success without a handle.
pub fn checked_handle(
    status: Result<(), RuntimeError>,
    handle: Option<u64>,
    null_message: &str,
) -> (out: Result<u64, RuntimeError>)
    ensures
        match handle_refusal(status, handle, null_message@) {
            Some((code, message)) => out is Err && out->Err_0.says(code, message),
            None => out is Ok && handle == Some(out->Ok_0),
        },
{
    match status {
        Ok(()) => {},
        Err(error) => {
            return Err(error);
        },
    }
    match handle {
        Some(handle) => Ok(handle),
        None => Err(RuntimeError::local(RuntimeStatus::InternalError, null_message)),
    }
}

/// The bindings of a descriptor stand one behind the other, 184 bytes apart, behind a head of 32 bytes.
pub proof fn bindings_stand_side_by_side(place: u8, first: u32, at: u32, next: u32)
    requires
        place < 255,
        call_ensures(binding_offset, (0,), first),
        call_ensures(binding_offset, (place,), at),
        call_ensures(binding_offset, ((place + 1) as u8,), next),
    ensures
        first == 32,
        next - at == 184,
{
    assert((place + 1) * BINDING_BYTES == place * BINDING_BYTES + BINDING_BYTES) by (nonlinear_arith);
    assert(0 * BINDING_BYTES == 0) by (nonlinear_arith);
}

/// A name is read up to its first zero byte, one character for each byte, and a byte above 127 as the
/// character of its own code.
pub proof fn names_are_read_byte_by_byte(value: &[i8], name: String, length: int, at: int)
    requires
        call_ensures(read_c_string, (value,), name),
        0 <= length <= value@.len(),
        forall|i: int| 0 <= i < length ==> #[trigger] value@[i] != 0,
        length < value@.len() ==> value@[length] == 0,
        0 <= at < length,
    ensures
        name@.len() == length,
        name@[at] as int == value@[at] || name@[at] as int == value@[at] + 256,
        value@[at] > 0 ==> name@[at] as int == value@[at],
{
    c_text_is_the_front(value@, length);
}

proof fn c_text_is_the_front(value: Seq<i8>, length: int)
    requires
        0 <= length <= value.len(),
        forall|i: int| 0 <= i < length ==> #[trigger] value[i] != 0,
        length < value.len() ==> value[length] == 0,
    ensures
        c_text(value) == Seq::new(length as nat, |i: int| byte_char(value[i])),
    decreases length,
{
    if length > 0 {
        let rest = value.skip(1);
        assert forall|i: int| 0 <= i < length - 1 implies #[trigger] rest[i] != 0 by {
            assert(rest[i] == value[i + 1]);
        }
        c_text_is_the_front(rest, length - 1);
        assert(c_text(value) =~= Seq::new(length as nat, |i: int| byte_char(value[i])));
    } else {
        assert(c_text(value) =~= Seq::new(0, |i: int| byte_char(value[i])));
    }
}

/// A native call is believed only with a handle: its own error goes first, and success without a handle
/// is an error too.
pub proof fn success_needs_a_handle(
    status: Result<(), RuntimeError>,
    handle: Option<u64>,
    message: &str,
    out: Result<u64, RuntimeError>,
)
    requires
        call_ensures(checked_handle, (status, handle, message), out),
    ensures
        out is Ok <==> status is Ok && handle is Some,
        out matches Ok(found) ==> handle == Some(found),
        status matches Err(error) ==> out->Err_0.status == error.status && out->Err_0.message@
            == error.message@,
        status is Ok && handle is None ==> out->Err_0.status == RuntimeStatus::InternalError,
{
}

} // verus!
