//! Published key/value prefixes of an exported state image.
//!
//! Each payload is the published prefix of a value plane followed by that of its scale plane. A
//! plane may describe its whole physical capacity or the published prefix alone; either way the
//! payload is trimmed to the published tokens.
use crate::bytes::{
    le_u32, le_u32_injective, le_u64, le_u64_injective, push_bytes, push_le_u32, push_le_u64,
    same_items,
};
use crate::digest::{digest, digest_of};
use crate::text::{decimal, decimal_string, joined, joined3};
use vstd::prelude::*;
use vstd::slice::{slice_subrange, slice_to_vec};
use vstd::string::StringExecFns;

verus! {

broadcast use vstd::string::group_string_axioms;

/// The planes of a key/value state image.
#[derive(Clone, Copy, Debug, PartialEq, Eq, Structural)]
pub enum PlaneKind {
    KvKey,
    KvValue,
    KvKeyScale,
    KvValueScale,
    Other,
}

impl PlaneKind {
    /// The name of the plane in messages.
    pub open spec fn label(self) -> Seq<char> {
        match self {
            PlaneKind::KvKey => "KvKey"@,
            PlaneKind::KvValue => "KvValue"@,
            PlaneKind::KvKeyScale => "KvKeyScale"@,
            PlaneKind::KvValueScale => "KvValueScale"@,
            PlaneKind::Other => "Other"@,
        }
    }

    /// The name of the plane in messages.
    pub fn name(self) -> (out: &'static str)
        ensures
            out@ == self.label(),
    {
        match self {
            PlaneKind::KvKey => "KvKey",
            PlaneKind::KvValue => "KvValue",
            PlaneKind::KvKeyScale => "KvKeyScale",
            PlaneKind::KvValueScale => "KvValueScale",
            PlaneKind::Other => "Other",
        }
    }
}

/// One plane of a layer's image.
#[derive(Debug)]
pub struct Plane {
    pub kind: PlaneKind,
    pub bytes: Vec<u8>,
}

/// How a layer's MXFP8 descriptor lays out a head.
#[derive(Clone, Copy, Debug, PartialEq, Eq, Structural)]
pub struct Mxfp8Layout {
    pub padded_head_dim: usize,
    pub blocks_per_head: usize,
}

/// The image of one layer.
#[derive(Debug)]
pub struct LayerImage {
    pub layer: u32,
    pub has_sliding_window: bool,
    pub is_mxfp8_e4: bool,
    pub encoding_name: String,
    pub published_length: u64,
    pub has_active_slot: bool,
    pub mxfp8: Option<Mxfp8Layout>,
    pub heads: usize,
    pub planes: Vec<Plane>,
}

/// The image of a request, its layers in order.
#[derive(Debug)]
pub struct KvImage {
    pub committed_length: u64,
    pub layers: Vec<LayerImage>,
}

/// The payload of one layer.
#[derive(Debug)]
pub struct LayerPayload {
    pub layer: u32,
    pub key: Vec<u8>,
    pub value: Vec<u8>,
}

/// The contents of one layer's payload.
pub struct LayerPayloadView {
    pub layer: u32,
    pub key: Seq<u8>,
    pub value: Seq<u8>,
}

impl View for LayerPayload {
    type V = LayerPayloadView;

    open spec fn view(&self) -> LayerPayloadView {
        LayerPayloadView { layer: self.layer, key: self.key@, value: self.value@ }
    }
}

/// The contents of a list of payloads.
pub open spec fn payload_views(payloads: Seq<LayerPayload>) -> Seq<LayerPayloadView> {
    Seq::new(payloads.len(), |i: int| payloads[i]@)
}

/// The front of a message about a layer.
pub open spec fn layer_text(layer: u32) -> Seq<char> {
    "layer "@ + decimal(layer as nat)
}

fn layer_string(layer: u32) -> (out: String)
    ensures
        out@ == layer_text(layer),
{
    let number = decimal_string(layer as u64);
    joined("layer ", number.as_str())
}

fn layer_message(layer: u32, rest: &str) -> (out: String)
    ensures
        out@ == layer_text(layer) + rest@,
{
    let front = layer_string(layer);
    joined(front.as_str(), rest)
}

/// The length of a published prefix, or the message that refuses it.
pub open spec fn prefix_outcome(
    published_length: u64,
    bytes_per_token: nat,
    layer: u32,
    plane_name: Seq<char>,
) -> Result<nat, Seq<char>> {
    if published_length > usize::MAX {
        Err(layer_text(layer) + " published length exceeds host usize"@)
    } else if published_length * bytes_per_token > usize::MAX {
        Err(layer_text(layer) + " "@ + plane_name + " prefix length overflowed"@)
    } else {
        Ok((published_length * bytes_per_token) as nat)
    }
}

/// The length of a published prefix.
pub fn prefix_len(
    published_length: u64,
    bytes_per_token: usize,
    layer: u32,
    plane_name: &str,
) -> (out: Result<usize, String>)
    ensures
        match prefix_outcome(published_length, bytes_per_token as nat, layer, plane_name@) {
            Ok(length) => out is Ok && out->Ok_0 == length,
            Err(message) => out is Err && out->Err_0@ == message,
        },
{
    if published_length > usize::MAX as u64 {
        return Err(layer_message(layer, " published length exceeds host usize"));
    }
    match (published_length as usize).checked_mul(bytes_per_token) {
        Some(length) => Ok(length),
        None => {
            let front = layer_message(layer, " ");
            Err(joined3(front.as_str(), plane_name, " prefix length overflowed"))
        },
    }
}

/// The published prefixes of a value plane and its scale plane, one behind the other.
pub open spec fn prefix_payload(
    values: Seq<u8>,
    value_prefix: nat,
    scales: Seq<u8>,
    scale_prefix: nat,
) -> Seq<u8> {
    values.take(value_prefix as int) + scales.take(scale_prefix as int)
}

/// The message about a plane that is shorter than its published prefix.
pub open spec fn short_plane(
    layer: u32,
    semantic: Seq<char>,
    plane: Seq<char>,
    length: nat,
    prefix: nat,
) -> Seq<char> {
    layer_text(layer) + " "@ + semantic + plane + decimal(length) + " < "@ + decimal(prefix)
}

fn short_plane_message(
    layer: u32,
    semantic: &str,
    plane: &str,
    length: usize,
    prefix: usize,
) -> (out: String)
    ensures
        out@ == short_plane(layer, semantic@, plane@, length as nat, prefix as nat),
{
    let front = layer_message(layer, " ");
    let mut out = joined3(front.as_str(), semantic, plane);
    let observed = decimal_string(length as u64);
    let wanted = decimal_string(prefix as u64);
    out.append(observed.as_str());
    out.append(" < ");
    out.append(wanted.as_str());
    out
}

/// The payload of two planes, or the message that refuses them.
pub open spec fn concat_outcome(
    values: Seq<u8>,
    value_prefix: nat,
    scales: Seq<u8>,
    scale_prefix: nat,
    layer: u32,
    semantic: Seq<char>,
) -> Result<Seq<u8>, Seq<char>> {
    if values.len() < value_prefix {
        Err(
            short_plane(
                layer,
                semantic,
                " value plane is shorter than published prefix: "@,
                values.len(),
                value_prefix,
            ),
        )
    } else if scales.len() < scale_prefix {
        Err(
            short_plane(
                layer,
                semantic,
                " scale plane is shorter than published prefix: "@,
                scales.len(),
                scale_prefix,
            ),
        )
    } else {
        Ok(prefix_payload(values, value_prefix, scales, scale_prefix))
    }
}

/// The published prefix of a value plane followed by that of its scale plane.
pub fn concat_prefix(
    values: &[u8],
    value_prefix: usize,
    scales: &[u8],
    scale_prefix: usize,
    layer: u32,
    semantic: &str,
) -> (out: Result<Vec<u8>, String>)
    ensures
        match concat_outcome(
            values@,
            value_prefix as nat,
            scales@,
            scale_prefix as nat,
            layer,
            semantic@,
        ) {
            Ok(payload) => out is Ok && out->Ok_0@ == payload,
            Err(message) => out is Err && out->Err_0@ == message,
        },
{
    if values.len() < value_prefix {
        return Err(
            short_plane_message(
                layer,
                semantic,
                " value plane is shorter than published prefix: ",
                values.len(),
                value_prefix,
            ),
        );
    }
    if scales.len() < scale_prefix {
        return Err(
            short_plane_message(
                layer,
                semantic,
                " scale plane is shorter than published prefix: ",
                scales.len(),
                scale_prefix,
            ),
        );
    }
    let mut payload = slice_to_vec(slice_subrange(values, 0, value_prefix));
    push_bytes(&mut payload, slice_subrange(scales, 0, scale_prefix));
    assert(values@.subrange(0, value_prefix as int) =~= values@.take(value_prefix as int));
    assert(scales@.subrange(0, scale_prefix as int) =~= scales@.take(scale_prefix as int));
    Ok(payload)
}

/// What a plane holds behind its published prefix does not change the payload.
pub proof fn unpublished_bytes_are_ignored(
    values: Seq<u8>,
    value_rest: Seq<u8>,
    value_prefix: nat,
    scales: Seq<u8>,
    scale_rest: Seq<u8>,
    scale_prefix: nat,
    layer: u32,
    semantic: Seq<char>,
)
    requires
        value_prefix <= values.len(),
        scale_prefix <= scales.len(),
    ensures
        concat_outcome(
            values + value_rest,
            value_prefix,
            scales + scale_rest,
            scale_prefix,
            layer,
            semantic,
        ) == concat_outcome(values, value_prefix, scales, scale_prefix, layer, semantic),
{
    assert((values + value_rest).take(value_prefix as int) =~= values.take(value_prefix as int));
    assert((scales + scale_rest).take(scale_prefix as int) =~= scales.take(scale_prefix as int));
}

/// The bytes of the first plane of a kind.
pub open spec fn plane_bytes(planes: Seq<Plane>, kind: PlaneKind) -> Option<Seq<u8>>
    decreases planes.len(),
{
    if planes.len() == 0 {
        None
    } else if planes[0].kind == kind {
        Some(planes[0].bytes@)
    } else {
        plane_bytes(planes.drop_first(), kind)
    }
}

/// The message about a plane that is missing.
pub open spec fn missing_plane(layer: u32, kind: PlaneKind) -> Seq<char> {
    layer_text(layer) + " state image omitted "@ + kind.label()
}

/// The bytes of the first plane of a kind.
pub fn plane(planes: &Vec<Plane>, kind: PlaneKind, layer: u32) -> (out: Result<&[u8], String>)
    ensures
        match plane_bytes(planes@, kind) {
            Some(bytes) => out is Ok && out->Ok_0@ == bytes,
            None => out is Err && out->Err_0@ == missing_plane(layer, kind),
        },
{
    let mut i: usize = 0;
    assert(planes@.skip(0) =~= planes@);
    while i < planes.len()
        invariant
            i <= planes@.len(),
            plane_bytes(planes@, kind) == plane_bytes(planes@.skip(i as int), kind),
        decreases planes@.len() - i,
    {
        assert(planes@.skip(i as int)[0] == planes@[i as int]);
        assert(planes@.skip(i as int).drop_first() =~= planes@.skip(i + 1));
        if planes[i].kind == kind {
            return Ok(planes[i].bytes.as_slice());
        }
        i = i + 1;
    }
    let front = layer_message(layer, " state image omitted ");
    Err(joined(front.as_str(), kind.name()))
}

/// The payload of a layer's planes, or the message that refuses them.
pub open spec fn planes_outcome(
    planes: Seq<Plane>,
    value_prefix: nat,
    scale_prefix: nat,
    layer: u32,
) -> Result<LayerPayloadView, Seq<char>> {
    match (
        plane_bytes(planes, PlaneKind::KvKey),
        plane_bytes(planes, PlaneKind::KvValue),
        plane_bytes(planes, PlaneKind::KvKeyScale),
        plane_bytes(planes, PlaneKind::KvValueScale),
    ) {
        (None, _, _, _) => Err(missing_plane(layer, PlaneKind::KvKey)),
        (Some(_), None, _, _) => Err(missing_plane(layer, PlaneKind::KvValue)),
        (Some(_), Some(_), None, _) => Err(missing_plane(layer, PlaneKind::KvKeyScale)),
        (Some(_), Some(_), Some(_), None) => Err(missing_plane(layer, PlaneKind::KvValueScale)),
        (Some(keys), Some(values), Some(key_scales), Some(value_scales)) => match concat_outcome(
            keys,
            value_prefix,
            key_scales,
            scale_prefix,
            layer,
            "key"@,
        ) {
            Err(message) => Err(message),
            Ok(key) => match concat_outcome(
                values,
                value_prefix,
                value_scales,
                scale_prefix,
                layer,
                "value"@,
            ) {
                Err(message) => Err(message),
                Ok(value) => Ok(LayerPayloadView { layer, key, value }),
            },
        },
    }
}

fn planes_payload(
    planes: &Vec<Plane>,
    value_prefix: usize,
    scale_prefix: usize,
    layer: u32,
) -> (out: Result<LayerPayload, String>)
    ensures
        match planes_outcome(planes@, value_prefix as nat, scale_prefix as nat, layer) {
            Ok(payload) => out is Ok && out->Ok_0@ == payload,
            Err(message) => out is Err && out->Err_0@ == message,
        },
{
    let keys = match plane(planes, PlaneKind::KvKey, layer) {
        Ok(bytes) => bytes,
        Err(message) => {
            return Err(message);
        },
    };
    let values = match plane(planes, PlaneKind::KvValue, layer) {
        Ok(bytes) => bytes,
        Err(message) => {
            return Err(message);
        },
    };
    let key_scales = match plane(planes, PlaneKind::KvKeyScale, layer) {
        Ok(bytes) => bytes,
        Err(message) => {
            return Err(message);
        },
    };
    let value_scales = match plane(planes, PlaneKind::KvValueScale, layer) {
        Ok(bytes) => bytes,
        Err(message) => {
            return Err(message);
        },
    };
    let key = match concat_prefix(keys, value_prefix, key_scales, scale_prefix, layer, "key") {
        Ok(key) => key,
        Err(message) => {
            return Err(message);
        },
    };
    match concat_prefix(values, value_prefix, value_scales, scale_prefix, layer, "value") {
        Ok(value) => Ok(LayerPayload { layer, key, value }),
        Err(message) => Err(message),
    }
}

/// The payload of a layer, or the message that refuses it.
pub open spec fn layer_outcome(
    image: LayerImage,
    published_length: u64,
) -> Result<LayerPayloadView, Seq<char>> {
    let front = layer_text(image.layer);
    if image.has_sliding_window {
        Err("diagnostic KV prefix requires non-sliding storage"@)
    } else if !image.is_mxfp8_e4 {
        Err(front + " has unsupported KV encoding "@ + image.encoding_name@)
    } else if image.published_length != published_length || image.has_active_slot {
        Err(front + " has inconsistent KV image publication metadata"@)
    } else {
        match image.mxfp8 {
            None => Err(front + " is missing its MXFP8 descriptor"@),
            Some(layout) => {
                let value_stride = (image.heads * layout.padded_head_dim) as nat;
                let scale_stride = (image.heads * layout.blocks_per_head) as nat;
                if value_stride > usize::MAX {
                    Err(front + " value stride overflowed"@)
                } else if scale_stride > usize::MAX {
                    Err(front + " scale stride overflowed"@)
                } else {
                    match (
                        prefix_outcome(published_length, value_stride, image.layer, "value"@),
                        prefix_outcome(published_length, scale_stride, image.layer, "scale"@),
                    ) {
                        (Err(message), _) => Err(message),
                        (Ok(_), Err(message)) => Err(message),
                        (Ok(value_prefix), Ok(scale_prefix)) => planes_outcome(
                            image.planes@,
                            value_prefix,
                            scale_prefix,
                            image.layer,
                        ),
                    }
                }
            },
        }
    }
}

/// The payload of a layer.
pub fn layer_payload(image: &LayerImage, published_length: u64) -> (out: Result<
    LayerPayload,
    String,
>)
    ensures
        match layer_outcome(*image, published_length) {
            Ok(payload) => out is Ok && out->Ok_0@ == payload,
            Err(message) => out is Err && out->Err_0@ == message,
        },
{
    let layer: u32 = image.layer;
    if image.has_sliding_window {
        return Err("diagnostic KV prefix requires non-sliding storage".to_owned());
    }
    if !image.is_mxfp8_e4 {
        let front = layer_message(layer, " has unsupported KV encoding ");
        return Err(joined(front.as_str(), image.encoding_name.as_str()));
    }
    if image.published_length != published_length || image.has_active_slot {
        return Err(layer_message(layer, " has inconsistent KV image publication metadata"));
    }
    let layout = match image.mxfp8 {
        Some(layout) => layout,
        None => {
            return Err(layer_message(layer, " is missing its MXFP8 descriptor"));
        },
    };
    let value_stride: usize = match image.heads.checked_mul(layout.padded_head_dim) {
        Some(stride) => stride,
        None => {
            return Err(layer_message(layer, " value stride overflowed"));
        },
    };
    let scale_stride: usize = match image.heads.checked_mul(layout.blocks_per_head) {
        Some(stride) => stride,
        None => {
            return Err(layer_message(layer, " scale stride overflowed"));
        },
    };
    let value_prefix: usize = match prefix_len(published_length, value_stride, layer, "value") {
        Ok(length) => length,
        Err(message) => {
            return Err(message);
        },
    };
    let scale_prefix: usize = match prefix_len(published_length, scale_stride, layer, "scale") {
        Ok(length) => length,
        Err(message) => {
            return Err(message);
        },
    };
    planes_payload(&image.planes, value_prefix, scale_prefix, layer)
}

/// The first plane of a kind stands where no plane before it is of that kind.
proof fn first_plane_gives_the_bytes(planes: Seq<Plane>, kind: PlaneKind, at: int)
    requires
        0 <= at < planes.len(),
        planes[at].kind == kind,
        forall|i: int| 0 <= i < at ==> (#[trigger] planes[i]).kind != kind,
    ensures
        plane_bytes(planes, kind) == Some(planes[at].bytes@),
    decreases planes.len(),
{
    if at > 0 {
        assert forall|i: int| 0 <= i < at - 1 implies (
        #[trigger] planes.drop_first()[i]).kind != kind by {
            assert(planes.drop_first()[i] == planes[i + 1]);
        }
        assert(planes[0].kind != kind);
        first_plane_gives_the_bytes(planes.drop_first(), kind, at - 1);
    }
}

/// A payload holds every published byte of its layer and no other: for each published token and
/// each head all padded values, and behind them for each token and head all block scales, as they
/// stand in the first plane of their kind. The planes stand at `keys`, `values`, `key_scales` and
/// `value_scales`.
pub proof fn payloads_hold_every_published_byte(
    image: &LayerImage,
    published_length: u64,
    payload: LayerPayload,
    keys: int,
    values: int,
    key_scales: int,
    value_scales: int,
)
    requires
        call_ensures(layer_payload, (image, published_length), Ok(payload)),
        0 <= keys < image.planes@.len(),
        0 <= values < image.planes@.len(),
        0 <= key_scales < image.planes@.len(),
        0 <= value_scales < image.planes@.len(),
        image.planes@[keys].kind == PlaneKind::KvKey,
        image.planes@[values].kind == PlaneKind::KvValue,
        image.planes@[key_scales].kind == PlaneKind::KvKeyScale,
        image.planes@[value_scales].kind == PlaneKind::KvValueScale,
        forall|i: int| 0 <= i < keys ==> (#[trigger] image.planes@[i]).kind != PlaneKind::KvKey,
        forall|i: int| 0 <= i < values ==> (#[trigger] image.planes@[i]).kind != PlaneKind::KvValue,
        forall|i: int|
            0 <= i < key_scales ==> (#[trigger] image.planes@[i]).kind != PlaneKind::KvKeyScale,
        forall|i: int|
            0 <= i < value_scales ==> (#[trigger] image.planes@[i]).kind != PlaneKind::KvValueScale,
    ensures
        !image.has_sliding_window && image.is_mxfp8_e4 && !image.has_active_slot,
        image.published_length == published_length,
        image.mxfp8 is Some,
        payload.layer == image.layer,
        ({
            let layout = image.mxfp8->Some_0;
            let data = published_length * (image.heads * layout.padded_head_dim);
            let scales = published_length * (image.heads * layout.blocks_per_head);
            &&& payload.key@.len() == data + scales
            &&& payload.value@.len() == data + scales
            &&& forall|i: int|
                0 <= i < data ==> #[trigger] payload.key@[i] == image.planes@[keys].bytes@[i]
            &&& forall|i: int|
                0 <= i < data ==> #[trigger] payload.value@[i] == image.planes@[values].bytes@[i]
            &&& forall|i: int|
                0 <= i < scales ==> #[trigger] payload.key@[data + i]
                    == image.planes@[key_scales].bytes@[i]
            &&& forall|i: int|
                0 <= i < scales ==> #[trigger] payload.value@[data + i]
                    == image.planes@[value_scales].bytes@[i]
        }),
{
    first_plane_gives_the_bytes(image.planes@, PlaneKind::KvKey, keys);
    first_plane_gives_the_bytes(image.planes@, PlaneKind::KvValue, values);
    first_plane_gives_the_bytes(image.planes@, PlaneKind::KvKeyScale, key_scales);
    first_plane_gives_the_bytes(image.planes@, PlaneKind::KvValueScale, value_scales);
    let layout = image.mxfp8->Some_0;
    let data = published_length * (image.heads * layout.padded_head_dim);
    assert(data >= 0) by (nonlinear_arith)
        requires
            data == published_length * (image.heads * layout.padded_head_dim),
    ;
}

/// Images that differ in a key byte of some published token, head and place have different
/// payloads.
pub proof fn different_keys_have_different_payloads(
    a: &LayerImage,
    b: &LayerImage,
    published_length: u64,
    x: LayerPayload,
    y: LayerPayload,
    token: int,
    head: int,
    place: int,
)
    requires
        call_ensures(layer_payload, (a, published_length), Ok(x)),
        call_ensures(layer_payload, (b, published_length), Ok(y)),
        a.heads == b.heads,
        a.mxfp8 == b.mxfp8,
        a.planes@.len() > 0 && b.planes@.len() > 0,
        a.planes@[0].kind == PlaneKind::KvKey && b.planes@[0].kind == PlaneKind::KvKey,
        0 <= token < published_length,
        0 <= head < a.heads,
        0 <= place < a.mxfp8->Some_0.padded_head_dim,
        ({
            let padded = a.mxfp8->Some_0.padded_head_dim as nat;
            let at = (token * a.heads + head) * padded + place;
            a.planes@[0].bytes@[at] != b.planes@[0].bytes@[at]
        }),
    ensures
        x.key@ != y.key@,
        x@ != y@,
{
    let heads = a.heads as int;
    let padded = a.mxfp8->Some_0.padded_head_dim as int;
    let at = (token * heads + head) * padded + place;
    let data = published_length * (heads * padded);
    let length = published_length as int;
    assert(0 <= at && (token * heads + head) * padded + place < length * (heads * padded))
        by (nonlinear_arith)
        requires
            at == (token * heads + head) * padded + place,
            0 <= token < length,
            0 <= head < heads,
            0 <= place < padded,
    ;
    first_plane_gives_the_bytes(a.planes@, PlaneKind::KvKey, 0);
    first_plane_gives_the_bytes(b.planes@, PlaneKind::KvKey, 0);
    assert(x.key@[at] == a.planes@[0].bytes@[at]);
    assert(y.key@[at] == b.planes@[0].bytes@[at]);
}

/// A layer is accepted just where its storage does not slide, is MXFP8 with a descriptor, is
/// published as the request is, has no open slot, and holds all four planes up to the published
/// tokens.
pub proof fn whole_layers_are_accepted(
    image: &LayerImage,
    published_length: u64,
    out: Result<LayerPayload, String>,
    keys: int,
    values: int,
    key_scales: int,
    value_scales: int,
)
    requires
        call_ensures(layer_payload, (image, published_length), out),
        0 <= keys < image.planes@.len(),
        0 <= values < image.planes@.len(),
        0 <= key_scales < image.planes@.len(),
        0 <= value_scales < image.planes@.len(),
        image.planes@[keys].kind == PlaneKind::KvKey,
        image.planes@[values].kind == PlaneKind::KvValue,
        image.planes@[key_scales].kind == PlaneKind::KvKeyScale,
        image.planes@[value_scales].kind == PlaneKind::KvValueScale,
        forall|i: int| 0 <= i < keys ==> (#[trigger] image.planes@[i]).kind != PlaneKind::KvKey,
        forall|i: int| 0 <= i < values ==> (#[trigger] image.planes@[i]).kind != PlaneKind::KvValue,
        forall|i: int|
            0 <= i < key_scales ==> (#[trigger] image.planes@[i]).kind != PlaneKind::KvKeyScale,
        forall|i: int|
            0 <= i < value_scales ==> (#[trigger] image.planes@[i]).kind != PlaneKind::KvValueScale,
    ensures
        out is Ok <==> {
            &&& !image.has_sliding_window
            &&& image.is_mxfp8_e4
            &&& !image.has_active_slot
            &&& image.published_length == published_length
            &&& image.mxfp8 is Some
            &&& published_length <= usize::MAX
            &&& image.heads * image.mxfp8->Some_0.padded_head_dim <= usize::MAX
            &&& image.heads * image.mxfp8->Some_0.blocks_per_head <= usize::MAX
            &&& published_length * (image.heads * image.mxfp8->Some_0.padded_head_dim) <= usize::MAX
            &&& published_length * (image.heads * image.mxfp8->Some_0.blocks_per_head) <= usize::MAX
            &&& published_length * (image.heads * image.mxfp8->Some_0.padded_head_dim)
                <= image.planes@[keys].bytes@.len()
            &&& published_length * (image.heads * image.mxfp8->Some_0.padded_head_dim)
                <= image.planes@[values].bytes@.len()
            &&& published_length * (image.heads * image.mxfp8->Some_0.blocks_per_head)
                <= image.planes@[key_scales].bytes@.len()
            &&& published_length * (image.heads * image.mxfp8->Some_0.blocks_per_head)
                <= image.planes@[value_scales].bytes@.len()
        },
{
    first_plane_gives_the_bytes(image.planes@, PlaneKind::KvKey, keys);
    first_plane_gives_the_bytes(image.planes@, PlaneKind::KvValue, values);
    first_plane_gives_the_bytes(image.planes@, PlaneKind::KvKeyScale, key_scales);
    first_plane_gives_the_bytes(image.planes@, PlaneKind::KvValueScale, value_scales);
    if image.mxfp8 is Some {
        let layout = image.mxfp8->Some_0;
        assert(image.heads * layout.padded_head_dim >= 0) by (nonlinear_arith)
            requires
                image.heads >= 0,
                layout.padded_head_dim >= 0,
        ;
        assert(image.heads * layout.blocks_per_head >= 0) by (nonlinear_arith)
            requires
                image.heads >= 0,
                layout.blocks_per_head >= 0,
        ;
    }
}

/// The payloads of the layers up to the first that is refused.
pub open spec fn layers_outcome(
    layers: Seq<LayerImage>,
    published_length: u64,
) -> Result<Seq<LayerPayloadView>, Seq<char>>
    decreases layers.len(),
{
    if layers.len() == 0 {
        Ok(Seq::empty())
    } else {
        match layers_outcome(layers.drop_last(), published_length) {
            Err(message) => Err(message),
            Ok(front) => match layer_outcome(layers.last(), published_length) {
                Err(message) => Err(message),
                Ok(payload) => Ok(front.push(payload)),
            },
        }
    }
}

/// The payloads of an image, or the message that refuses it.
pub open spec fn payload_outcome(image: KvImage) -> Result<Seq<LayerPayloadView>, Seq<char>> {
    if image.committed_length == 0 {
        Err("KV state-image export returned an empty request"@)
    } else if image.layers@.len() == 0 {
        Err("KV state-image has no KV layers"@)
    } else {
        layers_outcome(image.layers@, image.committed_length)
    }
}

proof fn refused_front_is_refused(layers: Seq<LayerImage>, upto: int, published_length: u64)
    requires
        0 <= upto <= layers.len(),
        layers_outcome(layers.take(upto), published_length) is Err,
    ensures
        layers_outcome(layers, published_length) == layers_outcome(
            layers.take(upto),
            published_length,
        ),
    decreases layers.len() - upto,
{
    if upto < layers.len() {
        assert(layers.take(upto + 1).drop_last() =~= layers.take(upto));
        refused_front_is_refused(layers, upto + 1, published_length);
    } else {
        assert(layers.take(upto) =~= layers);
    }
}

/// The published key and value payloads of every layer of an image.
pub fn kv_payload(image: &KvImage) -> (out: Result<Vec<LayerPayload>, String>)
    ensures
        match payload_outcome(*image) {
            Ok(payloads) => out is Ok && payload_views(out->Ok_0@) == payloads,
            Err(message) => out is Err && out->Err_0@ == message,
        },
{
    if image.committed_length == 0 {
        return Err("KV state-image export returned an empty request".to_owned());
    }
    if image.layers.len() == 0 {
        return Err("KV state-image has no KV layers".to_owned());
    }
    let ghost layers = image.layers@;
    let mut payloads: Vec<LayerPayload> = Vec::new();
    assert(payload_views(payloads@) =~= Seq::<LayerPayloadView>::empty());
    for i in 0..image.layers.len()
        invariant
            image.committed_length != 0,
            layers == image.layers@,
            layers.len() > 0,
            layers_outcome(layers.take(i as int), image.committed_length) == Ok::<
                Seq<LayerPayloadView>,
                Seq<char>,
            >(payload_views(payloads@)),
    {
        assert(layers.take(i + 1).drop_last() =~= layers.take(i as int));
        assert(layers.take(i + 1).last() == layers[i as int]);
        match layer_payload(&image.layers[i], image.committed_length) {
            Ok(payload) => {
                let ghost before = payload_views(payloads@);
                let ghost new = payload@;
                payloads.push(payload);
                assert(payload_views(payloads@) =~= before.push(new));
            },
            Err(message) => {
                proof {
                    refused_front_is_refused(layers, i + 1, image.committed_length);
                }
                return Err(message);
            },
        }
    }
    assert(layers.take(layers.len() as int) =~= layers);
    Ok(payloads)
}

/// A request's payloads are those of its layers, one for each and in order, all up to the committed
/// length.
pub proof fn payloads_follow_their_layers(
    image: &KvImage,
    payloads: Vec<LayerPayload>,
    at: int,
    payload: LayerPayload,
)
    requires
        call_ensures(kv_payload, (image,), Ok(payloads)),
        0 <= at < image.layers@.len(),
        call_ensures(layer_payload, (&image.layers@[at], image.committed_length), Ok(payload)),
    ensures
        image.committed_length > 0,
        payloads@.len() == image.layers@.len() >= 1,
        payloads@[at]@ == payload@,
{
    layers_are_taken_in_order(image.layers@, image.committed_length, at);
    assert(payload_views(payloads@)[at] == payloads@[at]@);
}

proof fn layers_are_taken_in_order(layers: Seq<LayerImage>, published_length: u64, at: int)
    requires
        layers_outcome(layers, published_length) is Ok,
        0 <= at < layers.len(),
    ensures
        layers_outcome(layers, published_length)->Ok_0.len() == layers.len(),
        layer_outcome(layers[at], published_length) == Ok::<LayerPayloadView, Seq<char>>(
            layers_outcome(layers, published_length)->Ok_0[at],
        ),
    decreases layers.len(),
{
    if at < layers.len() - 1 {
        layers_are_taken_in_order(layers.drop_last(), published_length, at);
    } else if layers.len() > 1 {
        layers_are_taken_in_order(layers.drop_last(), published_length, 0);
    }
}

/// The bytes that stand for one payload: the layer, then each part behind its length.
pub open spec fn payload_frame(payload: LayerPayloadView) -> Seq<u8> {
    le_u32(payload.layer) + le_u64(payload.key.len() as u64) + payload.key + le_u64(
        payload.value.len() as u64,
    ) + payload.value
}

/// The bytes that stand for a list of payloads.
pub open spec fn payload_image(payloads: Seq<LayerPayloadView>) -> Seq<u8>
    decreases payloads.len(),
{
    if payloads.len() == 0 {
        Seq::empty()
    } else {
        payload_frame(payloads[0]) + payload_image(payloads.drop_first())
    }
}

/// Whether the parts of every payload are short enough for their length fields.
pub open spec fn lengths_fit(payloads: Seq<LayerPayloadView>) -> bool {
    forall|i: int|
        0 <= i < payloads.len() ==> (#[trigger] payloads[i]).key.len() <= u64::MAX
            && payloads[i].value.len() <= u64::MAX
}

/// The parts of a payload stand at fixed places in its frame.
proof fn frame_parts(p: LayerPayloadView, rest: Seq<u8>)
    ensures
        ({
            let x = payload_frame(p) + rest;
            let k = p.key.len() as int;
            let v = p.value.len() as int;
            &&& x.len() == 20 + k + v + rest.len()
            &&& x.take(4) == le_u32(p.layer)
            &&& x.subrange(4, 12) == le_u64(k as u64)
            &&& x.subrange(12, 12 + k) == p.key
            &&& x.subrange(12 + k, 20 + k) == le_u64(v as u64)
            &&& x.subrange(20 + k, 20 + k + v) == p.value
            &&& x.skip(20 + k + v) == rest
        }),
{
    let x = payload_frame(p) + rest;
    let k = p.key.len() as int;
    let v = p.value.len() as int;
    assert(x.take(4) =~= le_u32(p.layer));
    assert(x.subrange(4, 12) =~= le_u64(k as u64));
    assert(x.subrange(12, 12 + k) =~= p.key);
    assert(x.subrange(12 + k, 20 + k) =~= le_u64(v as u64));
    assert(x.subrange(20 + k, 20 + k + v) =~= p.value);
    assert(x.skip(20 + k + v) =~= rest);
}

/// A frame and what follows it determine the payload and the rest.
proof fn frame_is_injective(
    p: LayerPayloadView,
    p_rest: Seq<u8>,
    q: LayerPayloadView,
    q_rest: Seq<u8>,
)
    requires
        p.key.len() <= u64::MAX,
        p.value.len() <= u64::MAX,
        q.key.len() <= u64::MAX,
        q.value.len() <= u64::MAX,
        payload_frame(p) + p_rest == payload_frame(q) + q_rest,
    ensures
        p == q,
        p_rest == q_rest,
{
    frame_parts(p, p_rest);
    frame_parts(q, q_rest);
    le_u32_injective(p.layer, q.layer);
    le_u64_injective(p.key.len() as u64, q.key.len() as u64);
    le_u64_injective(p.value.len() as u64, q.value.len() as u64);
}

/// Different payloads stand for different bytes: the digest hashes an unambiguous image.
pub proof fn payload_image_is_injective(a: Seq<LayerPayloadView>, b: Seq<LayerPayloadView>)
    requires
        lengths_fit(a),
        lengths_fit(b),
        payload_image(a) == payload_image(b),
    ensures
        a == b,
    decreases a.len(),
{
    if a.len() == 0 {
        if b.len() > 0 {
            frame_parts(b[0], payload_image(b.drop_first()));
        }
        assert(a =~= b);
    } else if b.len() == 0 {
        frame_parts(a[0], payload_image(a.drop_first()));
    } else {
        frame_is_injective(
            a[0],
            payload_image(a.drop_first()),
            b[0],
            payload_image(b.drop_first()),
        );
        assert forall|i: int| 0 <= i < a.drop_first().len() implies (
        #[trigger] a.drop_first()[i]).key.len() <= u64::MAX && a.drop_first()[i].value.len()
            <= u64::MAX by {
            assert(a.drop_first()[i] == a[i + 1]);
        }
        assert forall|i: int| 0 <= i < b.drop_first().len() implies (
        #[trigger] b.drop_first()[i]).key.len() <= u64::MAX && b.drop_first()[i].value.len()
            <= u64::MAX by {
            assert(b.drop_first()[i] == b[i + 1]);
        }
        payload_image_is_injective(a.drop_first(), b.drop_first());
        assert(a =~= seq![a[0]] + a.drop_first());
        assert(b =~= seq![b[0]] + b.drop_first());
    }
}

fn push_payload(image: &mut Vec<u8>, payload: &LayerPayload)
    ensures
        final(image)@ == old(image)@ + payload_frame(payload@),
{
    let ghost before = image@;
    push_le_u32(image, payload.layer);
    push_le_u64(image, payload.key.len() as u64);
    push_bytes(image, payload.key.as_slice());
    push_le_u64(image, payload.value.len() as u64);
    push_bytes(image, payload.value.as_slice());
    assert(image@ =~= before + payload_frame(payload@));
}

/// The digest of a list of payloads.
pub fn hash_payload(payloads: &Vec<LayerPayload>) -> (out: String)
    ensures
        out@ == digest_of(payload_image(payload_views(payloads@))),
{
    let ghost views = payload_views(payloads@);
    let mut image: Vec<u8> = Vec::new();
    assert(views.skip(0) =~= views);
    for i in 0..payloads.len()
        invariant
            views == payload_views(payloads@),
            image@ + payload_image(views.skip(i as int)) == payload_image(views),
    {
        let ghost before = image@;
        let ghost rest = views.skip(i as int);
        push_payload(&mut image, &payloads[i]);
        proof {
            assert(rest[0] == views[i as int]);
            assert(rest.drop_first() =~= views.skip(i + 1));
            assert(image@ + payload_image(rest.drop_first()) =~= before + payload_image(rest));
        }
    }
    proof {
        assert(views.skip(payloads.len() as int) =~= Seq::<LayerPayloadView>::empty());
        assert(image@ + Seq::<u8>::empty() =~= image@);
    }
    digest(image.as_slice())
}

/// Whether two lists of payloads are the same.
pub fn same_payloads(a: &Vec<LayerPayload>, b: &Vec<LayerPayload>) -> (out: bool)
    ensures
        out == (payload_views(a@) == payload_views(b@)),
{
    let ghost x = payload_views(a@);
    let ghost y = payload_views(b@);
    if a.len() != b.len() {
        assert(x.len() != y.len());
        return false;
    }
    for i in 0..a.len()
        invariant
            a@.len() == b@.len(),
            x == payload_views(a@),
            y == payload_views(b@),
            forall|j: int| 0 <= j < i ==> x[j] == y[j],
    {
        if a[i].layer != b[i].layer || !same_items(
            a[i].key.as_slice(),
            b[i].key.as_slice(),
        ) || !same_items(a[i].value.as_slice(), b[i].value.as_slice()) {
            assert(x[i as int] != y[i as int]);
            return false;
        }
    }
    assert(x =~= y);
    true
}

/// A payload is made exactly where both planes reach their prefixes: the front of the value plane, and
/// behind it the front of the scale plane.
pub proof fn prefixes_are_taken_from_the_front(
    values: &[u8],
    value_prefix: usize,
    scales: &[u8],
    scale_prefix: usize,
    layer: u32,
    semantic: &str,
    out: Result<Vec<u8>, String>,
)
    requires
        call_ensures(
            concat_prefix,
            (values, value_prefix, scales, scale_prefix, layer, semantic),
            out,
        ),
    ensures
        out is Ok <==> value_prefix <= values@.len() && scale_prefix <= scales@.len(),
        out matches Ok(payload) ==> {
            &&& payload@.len() == value_prefix + scale_prefix
            &&& forall|i: int| 0 <= i < value_prefix ==> #[trigger] payload@[i] == values@[i]
            &&& forall|i: int|
                value_prefix <= i < value_prefix + scale_prefix ==> #[trigger] payload@[i]
                    == scales@[i - value_prefix]
        },
{
}

/// A prefix holds the bytes of every published token, and is refused only where it would not fit.
pub proof fn prefixes_hold_every_token(
    published_length: u64,
    bytes_per_token: usize,
    layer: u32,
    plane_name: &str,
    out: Result<usize, String>,
)
    requires
        call_ensures(prefix_len, (published_length, bytes_per_token, layer, plane_name), out),
        bytes_per_token > 0,
    ensures
        out is Ok <==> published_length * bytes_per_token <= usize::MAX,
        out matches Ok(length) ==> length == published_length * bytes_per_token,
{
    assert(published_length <= published_length * bytes_per_token) by (nonlinear_arith)
        requires
            bytes_per_token > 0,
    ;
}

proof fn first_of_a_kind(planes: Seq<Plane>, kind: PlaneKind)
    ensures
        match plane_bytes(planes, kind) {
            Some(bytes) => exists|i: int|
                {
                    &&& 0 <= i < planes.len()
                    &&& (#[trigger] planes[i]).kind == kind
                    &&& planes[i].bytes@ == bytes
                    &&& forall|j: int| 0 <= j < i ==> (#[trigger] planes[j]).kind != kind
                },
            None => forall|i: int| 0 <= i < planes.len() ==> (#[trigger] planes[i]).kind != kind,
        },
    decreases planes.len(),
{
    if planes.len() > 0 {
        if planes[0].kind != kind {
            let rest = planes.drop_first();
            first_of_a_kind(rest, kind);
            if plane_bytes(rest, kind) is Some {
                let i = choose|i: int|
                    {
                        &&& 0 <= i < rest.len()
                        &&& (#[trigger] rest[i]).kind == kind
                        &&& rest[i].bytes@ == plane_bytes(rest, kind)->Some_0
                        &&& forall|j: int| 0 <= j < i ==> (#[trigger] rest[j]).kind != kind
                    };
                assert(planes[i + 1].kind == kind);
                assert forall|j: int| 0 <= j < i + 1 implies (#[trigger] planes[j]).kind != kind by {
                    if j > 0 {
                        assert(rest[j - 1].kind != kind);
                    }
                }
            } else {
                assert forall|i: int| 0 <= i < planes.len() implies (#[trigger] planes[i]).kind
                    != kind by {
                    if i > 0 {
                        assert(rest[i - 1].kind != kind);
                    }
                }
            }
        }
    }
}

/// The plane that is read is the first of its kind; it is missed only where no plane has the kind.
pub proof fn the_first_plane_of_a_kind_is_read(
    planes: &Vec<Plane>,
    kind: PlaneKind,
    layer: u32,
    out: Result<&[u8], String>,
)
    requires
        call_ensures(plane, (planes, kind, layer), out),
    ensures
        match out {
            Ok(bytes) => exists|i: int|
                {
                    &&& 0 <= i < planes@.len()
                    &&& (#[trigger] planes@[i]).kind == kind
                    &&& planes@[i].bytes@ == bytes@
                    &&& forall|j: int| 0 <= j < i ==> (#[trigger] planes@[j]).kind != kind
                },
            Err(_) => forall|i: int|
                0 <= i < planes@.len() ==> (#[trigger] planes@[i]).kind != kind,
        },
{
    first_of_a_kind(planes@, kind);
}

/// Two lists of payloads are the same exactly where they hold the same layers, keys and values.
pub proof fn same_payloads_agree_in_every_part(
    a: &Vec<LayerPayload>,
    b: &Vec<LayerPayload>,
    same: bool,
)
    requires
        call_ensures(same_payloads, (a, b), same),
    ensures
        same <==> {
            &&& a@.len() == b@.len()
            &&& forall|i: int|
                0 <= i < a@.len() ==> (#[trigger] a@[i]).layer == b@[i].layer && a@[i].key@
                    == b@[i].key@ && a@[i].value@ == b@[i].value@
        },
{
    let x = payload_views(a@);
    let y = payload_views(b@);
    if same {
        assert forall|i: int| 0 <= i < a@.len() implies (#[trigger] a@[i]).layer == b@[i].layer
            && a@[i].key@ == b@[i].key@ && a@[i].value@ == b@[i].value@ by {
            assert(x[i] == y[i]);
        }
        assert(x.len() == y.len());
    } else if a@.len() == b@.len() && (forall|i: int|
        0 <= i < a@.len() ==> (#[trigger] a@[i]).layer == b@[i].layer && a@[i].key@ == b@[i].key@
            && a@[i].value@ == b@[i].value@) {
        assert forall|i: int| 0 <= i < x.len() implies x[i] == y[i] by {
            assert(a@[i].layer == b@[i].layer);
        }
        assert(x =~= y);
    }
}

} // verus!
