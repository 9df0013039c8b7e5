//! Preparing a handle: compiling its filter and checking the driver's open
//! response.
use vstd::prelude::*;
use crate::proto::{Layer, OpenResponse, ProtocolVersion};
use crate::filter::{compile, spec_compile, CompileErrorView, lemma_compiled_filter_roundtrip};
use crate::filter::ir::{DecodeErrorView, LayerMask, IrView, encode_ir, spec_decode_ir, spec_ir_bytes};
use crate::user::error::{UserError, UserErrorView};

verus! {

/// What a network handle is opened with: its layer and its encoded filter.
#[derive(Debug, Clone)]
pub struct HandleConfig {
    layer: Layer,
    filter_ir: Vec<u8>,
}

/// Whether a filter's required layers suit a network handle: the Network
/// layer and no other.
pub open spec fn fits_network_layer(bits: u8) -> bool {
    bits & 0x01 == 0x01 && bits & 0x02 != 0x02 && bits & 0x04 != 0x04 && bits & 0x08 != 0x08 && bits & 0x10 != 0x10
}

/// The text of a filter that does not suit a network handle.
pub open spec fn incompatible_layer_text() -> Seq<char> {
    "filter required layers are incompatible with Layer::Network"@
}

/// What preparing a network handle gives: the compiled filter, if it
/// needs exactly the Network layer, encoded.
pub open spec fn spec_network_config(filter: Seq<char>) -> Result<Seq<u8>, UserErrorView> {
    match spec_compile(filter) {
        Err(e) => Err(UserErrorView::FilterCompile(e)),
        Ok(ir) => if fits_network_layer(ir.required_layers) {
            Ok(spec_ir_bytes(ir))
        } else {
            Err(UserErrorView::IncompatibleLayer(incompatible_layer_text()))
        },
    }
}

fn validate_network_layer(mask: LayerMask) -> (r: Result<(), UserError>)
    ensures
        fits_network_layer(mask.spec_bits()) ==> r is Ok,
        !fits_network_layer(mask.spec_bits()) ==> (r matches Err(e) && e@ == UserErrorView::IncompatibleLayer(incompatible_layer_text())),
{
    let has_network = mask.contains(LayerMask::network());
    let has_other = mask.contains(LayerMask::network_forward()) || mask.contains(LayerMask::flow())
        || mask.contains(LayerMask::socket()) || mask.contains(LayerMask::reflect());
    if !has_network || has_other {
        return Err(UserError::IncompatibleLayer("filter required layers are incompatible with Layer::Network"));
    }
    Ok(())
}

impl HandleConfig {
    pub closed spec fn spec_layer(&self) -> Layer {
        self.layer
    }

    pub closed spec fn spec_filter_ir(&self) -> Seq<u8> {
        self.filter_ir@
    }

    /// Compiles a filter for a network handle; the filter must need the
    /// Network layer and no other.
    pub fn network(filter: &str) -> (r: Result<HandleConfig, UserError>)
        ensures
            match spec_network_config(filter@) {
                Ok(bytes) => r matches Ok(c) && c.spec_layer() == Layer::Network && c.spec_filter_ir() == bytes,
                Err(e) => r matches Err(x) && x@ == e,
            },
    {
        let ir = match compile(filter) {
            Ok(ir) => ir,
            Err(e) => {
                return Err(UserError::from_compile(e));
            },
        };
        match validate_network_layer(ir.required_layers) {
            Ok(()) => {},
            Err(e) => {
                return Err(e);
            },
        }
        Ok(HandleConfig { layer: Layer::Network, filter_ir: encode_ir(&ir) })
    }

    pub fn layer(&self) -> (l: Layer)
        ensures
            l == self.spec_layer(),
    {
        self.layer
    }

    pub fn filter_ir(&self) -> (b: &[u8])
        ensures
            b@ == self.spec_filter_ir(),
    {
        self.filter_ir.as_slice()
    }
}

/// A handle the driver accepted, with the capabilities it reported.
#[derive(Debug, Clone, Copy)]
pub struct DynamicHandle {
    capabilities: u32,
}

impl DynamicHandle {
    pub closed spec fn spec_capabilities(&self) -> u32 {
        self.capabilities
    }

    /// Accepts an open response with status 0 in the current version.
    pub fn from_open_response(response: OpenResponse) -> (r: Result<DynamicHandle, UserError>)
        ensures
            response.status != 0 ==> (r matches Err(e) && e@ == UserErrorView::OpenResponseStatus(response.status)),
            response.status == 0 && response.version != ProtocolVersion::spec_current() ==> (r matches Err(e)
                && e@ == UserErrorView::ProtocolVersionMismatch),
            response.status == 0 && response.version == ProtocolVersion::spec_current() ==> (r matches Ok(h)
                && h.spec_capabilities() == response.capabilities),
    {
        if response.status != 0 {
            return Err(UserError::OpenResponseStatus(response.status));
        }
        let current = ProtocolVersion::current();
        if !(response.version.major == current.major && response.version.minor == current.minor) {
            return Err(UserError::ProtocolVersionMismatch);
        }
        Ok(DynamicHandle { capabilities: response.capabilities })
    }

    /// The capabilities the driver reported.
    pub fn capabilities_bits(&self) -> (c: u32)
        ensures
            c == self.spec_capabilities(),
    {
        self.capabilities
    }
}


/// A network handle's encoded filter decodes to the compiled filter (for
/// programs of at most 4096 instructions, the most the format carries).
pub proof fn lemma_network_config_decodes(filter: Seq<char>)
    requires
        spec_network_config(filter) is Ok,
        spec_compile(filter) matches Ok(ir) && ir.program.len() <= 4096,
    ensures
        spec_network_config(filter) matches Ok(bytes) && spec_compile(filter) matches Ok(ir) && spec_decode_ir(bytes) == Ok::<IrView, DecodeErrorView>(ir),
{
    lemma_compiled_filter_roundtrip(filter);
    let ir = spec_compile(filter)->Ok_0;
    let d = spec_decode_ir(spec_ir_bytes(ir))->Ok_0;
    assert(d == ir);
}

} // verus!
