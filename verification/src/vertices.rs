use vstd::prelude::*;

verus! {

/// Registers the vertex buffer for meshes with `N` vertices per instance.
#[derive(Default)]
pub struct SoftBodyVerticesPlugin<const N: usize>;

/// The vertex buffer (behind a handle of type `H`) that the compute pass
/// writes, `N` vertices per soft-body instance.
pub struct SoftBody2dVertexBuffer<const N: usize, H>(pub H);

/// `bytes` cut to `len` bytes, or grown to `len` bytes with zeros.
pub open spec fn resized(bytes: Seq<u8>, len: nat) -> Seq<u8> {
    if len <= bytes.len() {
        bytes.take(len as int)
    } else {
        bytes + Seq::new((len - bytes.len()) as nat, |i: int| 0u8)
    }
}

/// The bytes of an optional buffer, as a sequence.
pub open spec fn buffer_bytes(data: Option<Vec<u8>>) -> Option<Seq<u8>> {
    match data {
        Some(bytes) => Some(bytes@),
        None => None,
    }
}

/// An optional buffer resized to `len` bytes; no bytes stay no bytes.
pub open spec fn resized_bytes(data: Option<Seq<u8>>, len: nat) -> Option<Seq<u8>> {
    match data {
        Some(bytes) => Some(resized(bytes, len)),
        None => None,
    }
}

/// Bytes needed for `num_instances` instances of `n` vertices of
/// `element_size` bytes each.
pub open spec fn vertex_buffer_size(element_size: nat, num_instances: nat, n: nat) -> nat {
    element_size * num_instances * n
}

/// The buffer size computation does not overflow.
pub open spec fn vertex_buffer_size_fits(element_size: nat, num_instances: nat, n: nat) -> bool {
    &&& element_size * num_instances <= usize::MAX
    &&& element_size * num_instances * n <= usize::MAX
}

impl<const N: usize, H> SoftBody2dVertexBuffer<N, H> {
    /// Resizes the buffer's bytes (where it has any) to hold `num_instances`
    /// instances of `N` vertices of `element_size` bytes each; new bytes are zero.
    pub fn resize_buffer(element_size: usize, num_instances: u32, data: &mut Option<Vec<u8>>)
        requires
            vertex_buffer_size_fits(element_size as nat, num_instances as nat, N as nat),
        ensures
            buffer_bytes(*final(data)) == resized_bytes(
                buffer_bytes(*old(data)),
                vertex_buffer_size(element_size as nat, num_instances as nat, N as nat),
            ),
    {
        let new_buffer_size = element_size * num_instances as usize * N;
        match data {
            Some(bytes) => {
                let ghost old_bytes = bytes@;
                bytes.resize(new_buffer_size, 0u8);
                proof {
                    if new_buffer_size > old_bytes.len() {
                        assert(bytes@ =~= resized(old_bytes, new_buffer_size as nat));
                    }
                }
            },
            None => {},
        }
    }
}

/// A resize to `len` bytes gives exactly `len` bytes, keeps the bytes that
/// fit, and fills the new ones with zeros.
pub proof fn lemma_resized_keeps_and_zero_fills(bytes: Seq<u8>, len: nat)
    ensures
        resized(bytes, len).len() == len,
        forall|k: int| 0 <= k < len && k < bytes.len() ==> #[trigger] resized(bytes, len)[k] == bytes[k],
        forall|k: int| bytes.len() <= k < len ==> #[trigger] resized(bytes, len)[k] == 0u8,
{
}

/// After a resize, the bytes hold exactly `n` vertices of `element_size`
/// bytes for each instance.
pub proof fn lemma_resized_holds_instances(
    bytes: Seq<u8>,
    element_size: nat,
    num_instances: nat,
    n: nat,
)
    ensures
        resized(bytes, vertex_buffer_size(element_size, num_instances, n)).len() == element_size
            * n * num_instances,
{
    assert(element_size * num_instances * n == element_size * n * num_instances) by (nonlinear_arith);
}

/// Growing the buffer to one more instance and shrinking it back gives the
/// same bytes, when they held exactly `num_instances` instances.
pub proof fn lemma_grow_then_shrink_restores(
    data: Option<Seq<u8>>,
    element_size: nat,
    num_instances: nat,
    n: nat,
)
    requires
        data is Some ==> data->0.len() == vertex_buffer_size(element_size, num_instances, n),
    ensures
        resized_bytes(
            resized_bytes(data, vertex_buffer_size(element_size, num_instances + 1, n)),
            vertex_buffer_size(element_size, num_instances, n),
        ) == data,
{
    let small = vertex_buffer_size(element_size, num_instances, n);
    let big = vertex_buffer_size(element_size, num_instances + 1, n);
    assert(small <= big) by (nonlinear_arith)
        requires
            small == element_size * num_instances * n,
            big == element_size * (num_instances + 1) * n,
    ;
    if let Some(bytes) = data {
        assert(resized(resized(bytes, big), small) =~= bytes);
    }
}

} // verus!
