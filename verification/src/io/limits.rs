//! Resource limits and bounded I/O checks for model and data parsers.
use vstd::prelude::*;
use crate::error::Error;
use crate::text::{decimal, decimal_string, usize_text};

verus! {

/// Framework-wide resource constraints applied to untrusted headers, data
/// formats, tensor dimensions, and model files.
#[derive(Debug, Clone, PartialEq, Eq)]
pub struct ResourceLimits {
    /// Maximum allowed total file bytes.
    pub max_file_bytes: u64,
    /// Maximum allowed metadata/header bytes before tensor payload.
    pub max_header_bytes: u64,
    /// Maximum number of tensors in a file/archive.
    pub max_tensor_count: usize,
    /// Maximum number of metadata entries.
    pub max_metadata_entries: usize,
    /// Maximum length in bytes for a name string.
    pub max_name_bytes: usize,
    /// Maximum rank (number of dimensions) of a single tensor.
    pub max_rank: usize,
    /// Maximum value for a single dimension length.
    pub max_dimension: u64,
    /// Maximum bytes for a single tensor payload.
    pub max_tensor_bytes: u64,
    /// Maximum total bytes across all tensors in a container.
    pub max_total_tensor_bytes: u64,
    /// Maximum graph nodes in an imported format.
    pub max_graph_nodes: usize,
    /// Maximum graph edges in an imported format.
    pub max_graph_edges: usize,
    /// Maximum nesting depth for structures or recursive types.
    pub max_nesting_depth: usize,
    /// Maximum byte length of a general text string.
    pub max_string_bytes: usize,
    /// Maximum archive entries.
    pub max_archive_entries: usize,
    /// Maximum total expanded archive bytes.
    pub max_archive_expanded_bytes: u64,
}

/// The inspection preset.
pub open spec fn spec_inspection_defaults() -> ResourceLimits {
    ResourceLimits {
        max_file_bytes: (100 * 1024 * 1024 * 1024) as u64,
        max_header_bytes: (64 * 1024 * 1024) as u64,
        max_tensor_count: 50_000usize,
        max_metadata_entries: 50_000usize,
        max_name_bytes: 4096usize,
        max_rank: 32usize,
        max_dimension: 1_000_000_000u64,
        max_tensor_bytes: (64 * 1024 * 1024 * 1024) as u64,
        max_total_tensor_bytes: (100 * 1024 * 1024 * 1024) as u64,
        max_graph_nodes: 100_000usize,
        max_graph_edges: 500_000usize,
        max_nesting_depth: 64usize,
        max_string_bytes: (1024 * 1024) as usize,
        max_archive_entries: 100_000usize,
        max_archive_expanded_bytes: (100 * 1024 * 1024 * 1024) as u64,
    }
}

/// The compile-time preset.
pub open spec fn spec_compile_time_defaults() -> ResourceLimits {
    ResourceLimits {
        max_file_bytes: (512 * 1024 * 1024) as u64,
        max_header_bytes: (16 * 1024 * 1024) as u64,
        max_tensor_count: 5_000usize,
        max_metadata_entries: 5_000usize,
        max_name_bytes: 2048usize,
        max_rank: 16usize,
        max_dimension: 100_000_000u64,
        max_tensor_bytes: (256 * 1024 * 1024) as u64,
        max_total_tensor_bytes: (512 * 1024 * 1024) as u64,
        max_graph_nodes: 10_000usize,
        max_graph_edges: 50_000usize,
        max_nesting_depth: 32usize,
        max_string_bytes: (64 * 1024) as usize,
        max_archive_entries: 10_000usize,
        max_archive_expanded_bytes: (512 * 1024 * 1024) as u64,
    }
}

/// The trusted large-model preset.
pub open spec fn spec_trusted_local_large_model() -> ResourceLimits {
    ResourceLimits {
        max_file_bytes: (1_000 * 1024 * 1024 * 1024) as u64,
        max_header_bytes: (512 * 1024 * 1024) as u64,
        max_tensor_count: 500_000usize,
        max_metadata_entries: 500_000usize,
        max_name_bytes: 8192usize,
        max_rank: 64usize,
        max_dimension: 10_000_000_000u64,
        max_tensor_bytes: (500 * 1024 * 1024 * 1024) as u64,
        max_total_tensor_bytes: (1_000 * 1024 * 1024 * 1024) as u64,
        max_graph_nodes: 1_000_000usize,
        max_graph_edges: 5_000_000usize,
        max_nesting_depth: 128usize,
        max_string_bytes: (16 * 1024 * 1024) as usize,
        max_archive_entries: 500_000usize,
        max_archive_expanded_bytes: (1_000 * 1024 * 1024 * 1024) as u64,
    }
}

/// Whether `dims` complies with `limits`: rank within bound and every
/// extent within the dimension bound.
pub open spec fn shape_within(limits: ResourceLimits, dims: Seq<usize>) -> bool {
    &&& dims.len() <= limits.max_rank
    &&& forall|i: int| 0 <= i < dims.len() ==> #[trigger] dims[i] <= limits.max_dimension
}

/// The first axis at or after `i` whose extent passes `max`, or the rank
/// when none does.
pub open spec fn first_oversized_axis(dims: Seq<usize>, max: u64, i: int) -> int
    decreases dims.len() - i,
{
    if i >= dims.len() {
        i
    } else if dims[i] > max {
        i
    } else {
        first_oversized_axis(dims, max, i + 1)
    }
}

/// Why `dims` is refused under `limits`: its rank first, then its first
/// oversized axis.
pub open spec fn shape_refusal(limits: ResourceLimits, dims: Seq<usize>) -> Seq<char> {
    if dims.len() > limits.max_rank {
        "Tensor rank "@ + decimal(dims.len()) + " exceeds maximum limit "@ + decimal(
            limits.max_rank as nat,
        )
    } else {
        let axis = first_oversized_axis(dims, limits.max_dimension, 0);
        "Tensor dimension at axis "@ + decimal(axis as nat) + " ("@ + decimal(dims[axis] as nat)
            + ") exceeds limit "@ + decimal(limits.max_dimension as nat)
    }
}

/// Why a header of `bytes` bytes is refused against a limit of `limit`.
pub open spec fn header_refusal(bytes: u64, limit: u64) -> Seq<char> {
    "Header length "@ + decimal(bytes as nat) + " bytes exceeds maximum limit "@ + decimal(
        limit as nat,
    ) + " bytes"@
}

impl Default for ResourceLimits {
    fn default() -> (r: ResourceLimits)
        ensures
            r == spec_inspection_defaults(),
    {
        ResourceLimits::model_load_defaults()
    }
}

impl ResourceLimits {
    /// Strict limits for fast inspection without loading full payloads.
    pub fn inspection_defaults() -> (r: ResourceLimits)
        ensures
            r == spec_inspection_defaults(),
    {
        ResourceLimits {
            max_file_bytes: 100 * 1024 * 1024 * 1024,
            max_header_bytes: 64 * 1024 * 1024,
            max_tensor_count: 50_000,
            max_metadata_entries: 50_000,
            max_name_bytes: 4096,
            max_rank: 32,
            max_dimension: 1_000_000_000,
            max_tensor_bytes: 64 * 1024 * 1024 * 1024,
            max_total_tensor_bytes: 100 * 1024 * 1024 * 1024,
            max_graph_nodes: 100_000,
            max_graph_edges: 500_000,
            max_nesting_depth: 64,
            max_string_bytes: 1024 * 1024,
            max_archive_entries: 100_000,
            max_archive_expanded_bytes: 100 * 1024 * 1024 * 1024,
        }
    }

    /// Default limits for loading models into memory: the inspection preset.
    pub fn model_load_defaults() -> (r: ResourceLimits)
        ensures
            r == spec_inspection_defaults(),
    {
        ResourceLimits::inspection_defaults()
    }

    /// Strict limits for compile-time macro expansion or metadata evaluation.
    pub fn compile_time_defaults() -> (r: ResourceLimits)
        ensures
            r == spec_compile_time_defaults(),
    {
        ResourceLimits {
            max_file_bytes: 512 * 1024 * 1024,
            max_header_bytes: 16 * 1024 * 1024,
            max_tensor_count: 5_000,
            max_metadata_entries: 5_000,
            max_name_bytes: 2048,
            max_rank: 16,
            max_dimension: 100_000_000,
            max_tensor_bytes: 256 * 1024 * 1024,
            max_total_tensor_bytes: 512 * 1024 * 1024,
            max_graph_nodes: 10_000,
            max_graph_edges: 50_000,
            max_nesting_depth: 32,
            max_string_bytes: 64 * 1024,
            max_archive_entries: 10_000,
            max_archive_expanded_bytes: 512 * 1024 * 1024,
        }
    }

    /// High-capacity limits for trusted local multi-gigabyte models.
    pub fn trusted_local_large_model() -> (r: ResourceLimits)
        ensures
            r == spec_trusted_local_large_model(),
    {
        ResourceLimits {
            max_file_bytes: 1_000 * 1024 * 1024 * 1024,
            max_header_bytes: 512 * 1024 * 1024,
            max_tensor_count: 500_000,
            max_metadata_entries: 500_000,
            max_name_bytes: 8192,
            max_rank: 64,
            max_dimension: 10_000_000_000,
            max_tensor_bytes: 500 * 1024 * 1024 * 1024,
            max_total_tensor_bytes: 1_000 * 1024 * 1024 * 1024,
            max_graph_nodes: 1_000_000,
            max_graph_edges: 5_000_000,
            max_nesting_depth: 128,
            max_string_bytes: 16 * 1024 * 1024,
            max_archive_entries: 500_000,
            max_archive_expanded_bytes: 1_000 * 1024 * 1024 * 1024,
        }
    }

    /// Verifies that a tensor shape's rank and every dimension comply with
    /// the limits.
    pub fn check_shape(&self, dims: &[usize]) -> (r: Result<(), Error>)
        ensures
            r is Ok <==> shape_within(*self, dims@),
            r matches Err(e) ==> e matches Error::Msg(m) && m@ == shape_refusal(*self, dims@),
    {
        if dims.len() > self.max_rank {
            let mut m = String::from_str("Tensor rank ");
            m.append(usize_text(dims.len()).as_str());
            m.append(" exceeds maximum limit ");
            m.append(usize_text(self.max_rank).as_str());
            return Err(Error::Msg(m));
        }
        let mut idx: usize = 0;
        while idx < dims.len()
            invariant
                idx <= dims@.len(),
                dims@.len() <= self.max_rank,
                forall|j: int| 0 <= j < idx ==> #[trigger] dims@[j] <= self.max_dimension,
                first_oversized_axis(dims@, self.max_dimension, 0) == first_oversized_axis(
                    dims@,
                    self.max_dimension,
                    idx as int,
                ),
            decreases dims.len() - idx,
        {
            let d = dims[idx];
            if d as u64 > self.max_dimension {
                let mut m = String::from_str("Tensor dimension at axis ");
                m.append(usize_text(idx).as_str());
                m.append(" (");
                m.append(usize_text(d).as_str());
                m.append(") exceeds limit ");
                m.append(decimal_string(self.max_dimension).as_str());
                return Err(Error::Msg(m));
            }
            idx = idx + 1;
        }
        Ok(())
    }

    /// Verifies that a header length is within limits.
    pub fn check_header_bytes(&self, bytes: u64) -> (r: Result<(), Error>)
        ensures
            r is Ok <==> bytes <= self.max_header_bytes,
            r matches Err(e) ==> e matches Error::Msg(m) && m@ == header_refusal(
                bytes,
                self.max_header_bytes,
            ),
    {
        if bytes > self.max_header_bytes {
            let mut m = String::from_str("Header length ");
            m.append(decimal_string(bytes).as_str());
            m.append(" bytes exceeds maximum limit ");
            m.append(decimal_string(self.max_header_bytes).as_str());
            m.append(" bytes");
            return Err(Error::Msg(m));
        }
        Ok(())
    }
}

/// The three presets are ordered: compile-time limits are no looser than
/// inspection limits, which are no looser than the trusted large-model ones,
/// so a shape accepted by a stricter preset is accepted by a looser one.
pub proof fn lemma_presets_nest(dims: Seq<usize>)
    ensures
        shape_within(spec_compile_time_defaults(), dims) ==> shape_within(
            spec_inspection_defaults(),
            dims,
        ),
        shape_within(spec_inspection_defaults(), dims) ==> shape_within(
            spec_trusted_local_large_model(),
            dims,
        ),
{
}

} // verus!
