//! The file node: a graph-fragment node describing a file observed on an
//! asset, with the deterministic merge rules of the node model.

use vstd::prelude::*;

use crate::errors::Error;
use crate::identity::{ident_of, make_identity};
use crate::ids;
use crate::merge_rules::{
    fill_opt, fill_seq, fill_u64, max_merge, merge_created, merge_last_seen, min_nonzero, opt_view,
};
use crate::mutation::{mutation_numbers, mutation_strings, set_number_predicate, set_string_predicate};
use crate::numfmt::{dec_str, u64_to_dec_string};

verus! {

/// The lifecycle state a file observation reports.
#[derive(Clone, Debug, PartialEq, Eq, Structural)]
pub enum FileState {
    Created,
    Deleted,
    Existing,
}

/// The wire encoding of a file state.
pub open spec fn file_state_code(s: FileState) -> u32 {
    match s {
        FileState::Created => 1,
        FileState::Deleted => 2,
        FileState::Existing => 3,
    }
}

impl FileState {
    /// Decode a wire value; values outside 1..=3 are rejected.
    pub fn try_from(i: u32) -> (r: Result<FileState, Error>)
        ensures
            i == 1 ==> r == Ok::<FileState, Error>(FileState::Created),
            i == 2 ==> r == Ok::<FileState, Error>(FileState::Deleted),
            i == 3 ==> r == Ok::<FileState, Error>(FileState::Existing),
            !(1 <= i <= 3) ==> r == Err::<FileState, Error>(Error::InvalidProcessState(i)),
    {
        match i {
            1 => Ok(FileState::Created),
            2 => Ok(FileState::Deleted),
            3 => Ok(FileState::Existing),
            _ => Err(Error::InvalidProcessState(i)),
        }
    }

    /// Encode the state for the wire.
    pub fn into_u32(self) -> (r: u32)
        ensures
            r == file_state_code(self),
    {
        match self {
            FileState::Created => 1,
            FileState::Deleted => 2,
            FileState::Existing => 3,
        }
    }
}

/// A file node. String fields are "empty means absent"; numeric fields are
/// "zero means absent".
#[derive(Clone, Debug)]
pub struct File {
    pub node_key: String,
    pub asset_id: Option<String>,
    pub hostname: Option<String>,
    pub state: u32,
    pub created_timestamp: u64,
    pub deleted_timestamp: u64,
    pub last_seen_timestamp: u64,
    pub file_name: String,
    pub file_path: String,
    pub file_extension: String,
    pub file_mime_type: String,
    pub file_size: u64,
    pub file_version: String,
    pub file_description: String,
    pub file_product: String,
    pub file_company: String,
    pub file_directory: String,
    pub file_inode: u64,
    pub file_hard_links: u64,
    pub md5_hash: String,
    pub sha1_hash: String,
    pub sha256_hash: String,
}

/// Field-wise description of a file merge: `m` is `a` merged with `b`.
/// Non-timestamp fields follow the fill rule; `created` takes the minimum
/// of the non-zero inputs; `deleted` and `last_seen` take the maximum.
pub open spec fn file_fields_merged(a: File, b: File, m: File) -> bool {
    &&& m.node_key == a.node_key
    &&& m.state == a.state
    &&& opt_view(m.asset_id) == fill_opt(opt_view(a.asset_id), opt_view(b.asset_id))
    &&& opt_view(m.hostname) == fill_opt(opt_view(a.hostname), opt_view(b.hostname))
    &&& m.file_name@ == fill_seq(a.file_name@, b.file_name@)
    &&& m.file_path@ == fill_seq(a.file_path@, b.file_path@)
    &&& m.file_extension@ == fill_seq(a.file_extension@, b.file_extension@)
    &&& m.file_mime_type@ == fill_seq(a.file_mime_type@, b.file_mime_type@)
    &&& m.file_size == fill_u64(a.file_size, b.file_size)
    &&& m.file_version@ == fill_seq(a.file_version@, b.file_version@)
    &&& m.file_description@ == fill_seq(a.file_description@, b.file_description@)
    &&& m.file_product@ == fill_seq(a.file_product@, b.file_product@)
    &&& m.file_company@ == fill_seq(a.file_company@, b.file_company@)
    &&& m.file_directory@ == fill_seq(a.file_directory@, b.file_directory@)
    &&& m.file_inode == fill_u64(a.file_inode, b.file_inode)
    &&& m.file_hard_links == fill_u64(a.file_hard_links, b.file_hard_links)
    &&& m.md5_hash@ == fill_seq(a.md5_hash@, b.md5_hash@)
    &&& m.sha1_hash@ == fill_seq(a.sha1_hash@, b.sha1_hash@)
    &&& m.sha256_hash@ == fill_seq(a.sha256_hash@, b.sha256_hash@)
    &&& m.created_timestamp == min_nonzero(a.created_timestamp, b.created_timestamp)
    &&& m.deleted_timestamp == max_merge(a.deleted_timestamp, b.deleted_timestamp)
    &&& m.last_seen_timestamp == max_merge(a.last_seen_timestamp, b.last_seen_timestamp)
}

/// True when merging `b` into `a` changes at least one field.
pub open spec fn file_merge_changes(a: File, b: File) -> bool {
    ||| (a.asset_id is None && b.asset_id is Some)
    ||| (a.hostname is None && b.hostname is Some)
    ||| (a.file_name@.len() == 0 && b.file_name@.len() != 0)
    ||| (a.file_path@.len() == 0 && b.file_path@.len() != 0)
    ||| (a.file_extension@.len() == 0 && b.file_extension@.len() != 0)
    ||| (a.file_mime_type@.len() == 0 && b.file_mime_type@.len() != 0)
    ||| (a.file_size == 0 && b.file_size != 0)
    ||| (a.file_version@.len() == 0 && b.file_version@.len() != 0)
    ||| (a.file_description@.len() == 0 && b.file_description@.len() != 0)
    ||| (a.file_product@.len() == 0 && b.file_product@.len() != 0)
    ||| (a.file_company@.len() == 0 && b.file_company@.len() != 0)
    ||| (a.file_directory@.len() == 0 && b.file_directory@.len() != 0)
    ||| (a.file_inode == 0 && b.file_inode != 0)
    ||| (a.file_hard_links == 0 && b.file_hard_links != 0)
    ||| (a.md5_hash@.len() == 0 && b.md5_hash@.len() != 0)
    ||| (a.sha1_hash@.len() == 0 && b.sha1_hash@.len() != 0)
    ||| (a.sha256_hash@.len() == 0 && b.sha256_hash@.len() != 0)
    ||| (min_nonzero(a.created_timestamp, b.created_timestamp) != a.created_timestamp)
    ||| (max_merge(a.deleted_timestamp, b.deleted_timestamp) != a.deleted_timestamp)
    ||| (max_merge(a.last_seen_timestamp, b.last_seen_timestamp) != a.last_seen_timestamp)
}

impl File {
    /// Build a file node with a fresh random node key. The state argument
    /// picks which timestamp field the observation time lands in. At least
    /// one of `asset_id` and `hostname` must be given.
    pub fn new(
        asset_id: Option<String>,
        hostname: Option<String>,
        state: FileState,
        timestamp: u64,
        file_name: String,
        file_path: String,
        file_extension: String,
        file_mime_type: String,
        file_size: u64,
        file_version: String,
        file_description: String,
        file_product: String,
        file_company: String,
        file_directory: String,
        file_inode: u64,
        file_hard_links: u64,
        md5_hash: String,
        sha1_hash: String,
        sha256_hash: String,
    ) -> (r: File)
        requires
            asset_id is Some || hostname is Some,
        ensures
            r.node_key@.len() == 36,
            forall|i: int| 0 <= i < 36 ==> ids::is_key_char(#[trigger] r.node_key@[i]),
            r.asset_id == asset_id,
            r.hostname == hostname,
            r.state == file_state_code(state),
            r.file_name == file_name,
            r.file_path == file_path,
            r.file_extension == file_extension,
            r.file_mime_type == file_mime_type,
            r.file_size == file_size,
            r.file_version == file_version,
            r.file_description == file_description,
            r.file_product == file_product,
            r.file_company == file_company,
            r.file_directory == file_directory,
            r.file_inode == file_inode,
            r.file_hard_links == file_hard_links,
            r.md5_hash == md5_hash,
            r.sha1_hash == sha1_hash,
            r.sha256_hash == sha256_hash,
            state is Created ==> r.created_timestamp == timestamp && r.deleted_timestamp == 0
                && r.last_seen_timestamp == 0,
            state is Deleted ==> r.deleted_timestamp == timestamp && r.created_timestamp == 0
                && r.last_seen_timestamp == 0,
            state is Existing ==> r.last_seen_timestamp == timestamp && r.created_timestamp == 0
                && r.deleted_timestamp == 0,
            r.wf(),
    {
        let mut fd = File {
            node_key: ids::fresh_node_key(),
            asset_id,
            hostname,
            state: match state {
                FileState::Created => 1,
                FileState::Deleted => 2,
                FileState::Existing => 3,
            },
            created_timestamp: 0,
            deleted_timestamp: 0,
            last_seen_timestamp: 0,
            file_name,
            file_path,
            file_extension,
            file_mime_type,
            file_size,
            file_version,
            file_description,
            file_product,
            file_company,
            file_directory,
            file_inode,
            file_hard_links,
            md5_hash,
            sha1_hash,
            sha256_hash,
        };
        match state {
            FileState::Created => fd.created_timestamp = timestamp,
            FileState::Existing => fd.last_seen_timestamp = timestamp,
            FileState::Deleted => fd.deleted_timestamp = timestamp,
        }
        fd
    }

    /// A well-formed file node carries a valid state code.
    pub open spec fn wf(&self) -> bool {
        1 <= self.state <= 3
    }

    /// The observation timestamp: the timestamp field that the node's own
    /// state selects.
    pub fn timestamp(&self) -> (r: u64)
        requires
            self.wf(),
        ensures
            self.state == 1 ==> r == self.created_timestamp,
            self.state == 2 ==> r == self.deleted_timestamp,
            self.state == 3 ==> r == self.last_seen_timestamp,
    {
        if self.state == 1 {
            self.created_timestamp
        } else if self.state == 2 {
            self.deleted_timestamp
        } else {
            self.last_seen_timestamp
        }
    }

    /// First merge phase: the identity and naming fields, each under the
    /// fill rule. Every other field is left untouched.
    #[verifier::spinoff_prover]
    fn merge_naming(&mut self, other: &File) -> (r: bool)
        ensures
            final(self).node_key == old(self).node_key,
            final(self).state == old(self).state,
            final(self).created_timestamp == old(self).created_timestamp,
            final(self).deleted_timestamp == old(self).deleted_timestamp,
            final(self).last_seen_timestamp == old(self).last_seen_timestamp,
            final(self).file_version == old(self).file_version,
            final(self).file_description == old(self).file_description,
            final(self).file_product == old(self).file_product,
            final(self).file_company == old(self).file_company,
            final(self).file_directory == old(self).file_directory,
            final(self).file_inode == old(self).file_inode,
            final(self).file_hard_links == old(self).file_hard_links,
            final(self).md5_hash == old(self).md5_hash,
            final(self).sha1_hash == old(self).sha1_hash,
            final(self).sha256_hash == old(self).sha256_hash,
            opt_view(final(self).asset_id) == fill_opt(
                opt_view(old(self).asset_id),
                opt_view(other.asset_id),
            ),
            opt_view(final(self).hostname) == fill_opt(
                opt_view(old(self).hostname),
                opt_view(other.hostname),
            ),
            final(self).file_name@ == fill_seq(old(self).file_name@, other.file_name@),
            final(self).file_path@ == fill_seq(old(self).file_path@, other.file_path@),
            final(self).file_extension@ == fill_seq(
                old(self).file_extension@,
                other.file_extension@,
            ),
            final(self).file_mime_type@ == fill_seq(
                old(self).file_mime_type@,
                other.file_mime_type@,
            ),
            final(self).file_size == fill_u64(old(self).file_size, other.file_size),
            r == ({
                ||| (old(self).asset_id is None && other.asset_id is Some)
                ||| (old(self).hostname is None && other.hostname is Some)
                ||| (old(self).file_name@.len() == 0 && other.file_name@.len() != 0)
                ||| (old(self).file_path@.len() == 0 && other.file_path@.len() != 0)
                ||| (old(self).file_extension@.len() == 0 && other.file_extension@.len() != 0)
                ||| (old(self).file_mime_type@.len() == 0 && other.file_mime_type@.len() != 0)
                ||| (old(self).file_size == 0 && other.file_size != 0)
            }),
    {
        let mut merged = false;

        if self.asset_id.is_none() && other.asset_id.is_some() {
            merged = true;
            self.asset_id = other.asset_id.clone();
        }
        if self.hostname.is_none() && other.hostname.is_some() {
            merged = true;
            self.hostname = other.hostname.clone();
        }
        if self.file_name.as_str().is_empty() && !other.file_name.as_str().is_empty() {
            merged = true;
            self.file_name = other.file_name.clone();
        }
        if self.file_path.as_str().is_empty() && !other.file_path.as_str().is_empty() {
            merged = true;
            self.file_path = other.file_path.clone();
        }
        if self.file_extension.as_str().is_empty() && !other.file_extension.as_str().is_empty() {
            merged = true;
            self.file_extension = other.file_extension.clone();
        }
        if self.file_mime_type.as_str().is_empty() && !other.file_mime_type.as_str().is_empty() {
            merged = true;
            self.file_mime_type = other.file_mime_type.clone();
        }
        if self.file_size == 0 && other.file_size != 0 {
            merged = true;
            self.file_size = other.file_size;
        }
        merged
    }

    /// Second merge phase: the descriptive and hash fields, each under the
    /// fill rule. Every other field is left untouched.
    #[verifier::spinoff_prover]
    fn merge_details(&mut self, other: &File) -> (r: bool)
        ensures
            final(self).node_key == old(self).node_key,
            final(self).state == old(self).state,
            final(self).created_timestamp == old(self).created_timestamp,
            final(self).deleted_timestamp == old(self).deleted_timestamp,
            final(self).last_seen_timestamp == old(self).last_seen_timestamp,
            final(self).asset_id == old(self).asset_id,
            final(self).hostname == old(self).hostname,
            final(self).file_name == old(self).file_name,
            final(self).file_path == old(self).file_path,
            final(self).file_extension == old(self).file_extension,
            final(self).file_mime_type == old(self).file_mime_type,
            final(self).file_size == old(self).file_size,
            final(self).file_version@ == fill_seq(old(self).file_version@, other.file_version@),
            final(self).file_description@ == fill_seq(
                old(self).file_description@,
                other.file_description@,
            ),
            final(self).file_product@ == fill_seq(old(self).file_product@, other.file_product@),
            final(self).file_company@ == fill_seq(old(self).file_company@, other.file_company@),
            final(self).file_directory@ == fill_seq(
                old(self).file_directory@,
                other.file_directory@,
            ),
            final(self).file_inode == fill_u64(old(self).file_inode, other.file_inode),
            final(self).file_hard_links == fill_u64(
                old(self).file_hard_links,
                other.file_hard_links,
            ),
            final(self).md5_hash@ == fill_seq(old(self).md5_hash@, other.md5_hash@),
            final(self).sha1_hash@ == fill_seq(old(self).sha1_hash@, other.sha1_hash@),
            final(self).sha256_hash@ == fill_seq(old(self).sha256_hash@, other.sha256_hash@),
            r == ({
                ||| (old(self).file_version@.len() == 0 && other.file_version@.len() != 0)
                ||| (old(self).file_description@.len() == 0 && other.file_description@.len() != 0)
                ||| (old(self).file_product@.len() == 0 && other.file_product@.len() != 0)
                ||| (old(self).file_company@.len() == 0 && other.file_company@.len() != 0)
                ||| (old(self).file_directory@.len() == 0 && other.file_directory@.len() != 0)
                ||| (old(self).file_inode == 0 && other.file_inode != 0)
                ||| (old(self).file_hard_links == 0 && other.file_hard_links != 0)
                ||| (old(self).md5_hash@.len() == 0 && other.md5_hash@.len() != 0)
                ||| (old(self).sha1_hash@.len() == 0 && other.sha1_hash@.len() != 0)
                ||| (old(self).sha256_hash@.len() == 0 && other.sha256_hash@.len() != 0)
            }),
    {
        let mut merged = false;

        if self.file_version.as_str().is_empty() && !other.file_version.as_str().is_empty() {
            merged = true;
            self.file_version = other.file_version.clone();
        }
        if self.file_description.as_str().is_empty() && !other.file_description.as_str().is_empty()
        {
            merged = true;
            self.file_description = other.file_description.clone();
        }
        if self.file_product.as_str().is_empty() && !other.file_product.as_str().is_empty() {
            merged = true;
            self.file_product = other.file_product.clone();
        }
        if self.file_company.as_str().is_empty() && !other.file_company.as_str().is_empty() {
            merged = true;
            self.file_company = other.file_company.clone();
        }
        if self.file_directory.as_str().is_empty() && !other.file_directory.as_str().is_empty() {
            merged = true;
            self.file_directory = other.file_directory.clone();
        }
        if self.file_inode == 0 && other.file_inode != 0 {
            merged = true;
            self.file_inode = other.file_inode;
        }
        if self.file_hard_links == 0 && other.file_hard_links != 0 {
            merged = true;
            self.file_hard_links = other.file_hard_links;
        }
        if self.md5_hash.as_str().is_empty() && !other.md5_hash.as_str().is_empty() {
            merged = true;
            self.md5_hash = other.md5_hash.clone();
        }
        if self.sha1_hash.as_str().is_empty() && !other.sha1_hash.as_str().is_empty() {
            merged = true;
            self.sha1_hash = other.sha1_hash.clone();
        }
        if self.sha256_hash.as_str().is_empty() && !other.sha256_hash.as_str().is_empty() {
            merged = true;
            self.sha256_hash = other.sha256_hash.clone();
        }
        merged
    }

    /// Third merge phase: the timestamps. `created` takes the minimum of
    /// the non-zero inputs; `deleted` and `last_seen` take the maximum.
    /// Every other field is left untouched.
    #[verifier::spinoff_prover]
    fn merge_timestamps(&mut self, other: &File) -> (r: bool)
        ensures
            final(self).node_key == old(self).node_key,
            final(self).state == old(self).state,
            final(self).asset_id == old(self).asset_id,
            final(self).hostname == old(self).hostname,
            final(self).file_name == old(self).file_name,
            final(self).file_path == old(self).file_path,
            final(self).file_extension == old(self).file_extension,
            final(self).file_mime_type == old(self).file_mime_type,
            final(self).file_size == old(self).file_size,
            final(self).file_version == old(self).file_version,
            final(self).file_description == old(self).file_description,
            final(self).file_product == old(self).file_product,
            final(self).file_company == old(self).file_company,
            final(self).file_directory == old(self).file_directory,
            final(self).file_inode == old(self).file_inode,
            final(self).file_hard_links == old(self).file_hard_links,
            final(self).md5_hash == old(self).md5_hash,
            final(self).sha1_hash == old(self).sha1_hash,
            final(self).sha256_hash == old(self).sha256_hash,
            final(self).created_timestamp == min_nonzero(
                old(self).created_timestamp,
                other.created_timestamp,
            ),
            final(self).deleted_timestamp == max_merge(
                old(self).deleted_timestamp,
                other.deleted_timestamp,
            ),
            final(self).last_seen_timestamp == max_merge(
                old(self).last_seen_timestamp,
                other.last_seen_timestamp,
            ),
            r == ({
                ||| (min_nonzero(old(self).created_timestamp, other.created_timestamp) != old(
                    self,
                ).created_timestamp)
                ||| (max_merge(old(self).deleted_timestamp, other.deleted_timestamp) != old(
                    self,
                ).deleted_timestamp)
                ||| (max_merge(old(self).last_seen_timestamp, other.last_seen_timestamp) != old(
                    self,
                ).last_seen_timestamp)
            }),
    {
        let mut merged = false;

        let new_created = merge_created(self.created_timestamp, other.created_timestamp);
        if new_created != self.created_timestamp {
            merged = true;
            self.created_timestamp = new_created;
        }
        let new_deleted = merge_last_seen(self.deleted_timestamp, other.deleted_timestamp);
        if new_deleted != self.deleted_timestamp {
            merged = true;
            self.deleted_timestamp = new_deleted;
        }
        let new_last_seen = merge_last_seen(self.last_seen_timestamp, other.last_seen_timestamp);
        if new_last_seen != self.last_seen_timestamp {
            merged = true;
            self.last_seen_timestamp = new_last_seen;
        }
        merged
    }

    /// Merge `other` into `self`. A differing node key refuses the merge
    /// and leaves `self` untouched; otherwise every field follows its merge
    /// rule, and the result reports whether anything changed.
    #[verifier::rlimit(60)]
    #[verifier::spinoff_prover]
    pub fn merge(&mut self, other: &File) -> (r: bool)
        ensures
            old(self).node_key@ != other.node_key@ ==> r == false && *final(self) == *old(self),
            old(self).node_key@ == other.node_key@ ==> file_fields_merged(
                *old(self),
                *other,
                *final(self),
            ),
            old(self).node_key@ == other.node_key@ ==> r == file_merge_changes(
                *old(self),
                *other,
            ),
    {
        if !(self.node_key == other.node_key) {
            return false;
        }

        let merged_naming = self.merge_naming(other);
        let merged_details = self.merge_details(other);
        let merged_timestamps = self.merge_timestamps(other);
        merged_naming || merged_details || merged_timestamps
    }

    /// Merge a consumed node; the behaviour is that of [`File::merge`].
    pub fn merge_into(&mut self, other: File) -> (r: bool)
        ensures
            old(self).node_key@ != other.node_key@ ==> r == false && *final(self) == *old(self),
            old(self).node_key@ == other.node_key@ ==> file_fields_merged(
                *old(self),
                other,
                *final(self),
            ),
            old(self).node_key@ == other.node_key@ ==> r == file_merge_changes(*old(self), other),
    {
        self.merge(&other)
    }

    /// The asset this node belongs to, when known.
    pub fn get_asset_id(&self) -> (r: Option<&String>)
        ensures
            r == match self.asset_id {
                Some(ref s) => Some::<&String>(s),
                None => None::<&String>,
            },
    {
        self.asset_id.as_ref()
    }

    /// Bind the node to an asset; every other field is unchanged.
    pub fn set_asset_id(&mut self, asset_id: String)
        ensures
            *final(self) == (File { asset_id: Some(asset_id), ..*old(self) }),
    {
        self.asset_id = Some(asset_id);
    }

    /// The node's stable identifier.
    pub fn get_node_key(&self) -> (r: &String)
        ensures
            r == self.node_key,
    {
        &self.node_key
    }

    /// Replace the node's stable identifier; every other field is
    /// unchanged.
    pub fn set_node_key(&mut self, node_key: String)
        ensures
            *final(self) == (File { node_key: node_key, ..*old(self) }),
    {
        self.node_key = node_key;
    }

    /// First attachment phase: the node key, the type, and every
    /// non-empty string field as a string predicate.
    #[verifier::spinoff_prover]
    fn attach_string_predicates(&self, mutation_unit: &mut dgraph_query_lib::mutation::MutationUnit)
        ensures
            mutation_strings(*final(mutation_unit)) == file_string_phase_strings(
                *self,
                mutation_strings(*old(mutation_unit)),
            ),
            mutation_numbers(*final(mutation_unit)) == file_string_phase_numbers(
                *self,
                mutation_numbers(*old(mutation_unit)),
            ),
    {
        set_string_predicate(mutation_unit, "node_key", self.node_key.as_str());
        set_string_predicate(mutation_unit, "dgraph.type", "File");
        if !self.file_name.as_str().is_empty() {
            set_string_predicate(mutation_unit, "file_name", self.file_name.as_str());
        }
        if !self.file_path.as_str().is_empty() {
            set_string_predicate(mutation_unit, "file_path", self.file_path.as_str());
        }
        if !self.file_extension.as_str().is_empty() {
            set_string_predicate(mutation_unit, "file_extension", self.file_extension.as_str());
        }
        if !self.file_mime_type.as_str().is_empty() {
            set_string_predicate(mutation_unit, "file_mime_type", self.file_mime_type.as_str());
        }
        if !self.file_version.as_str().is_empty() {
            set_string_predicate(mutation_unit, "file_version", self.file_version.as_str());
        }
        if !self.file_description.as_str().is_empty() {
            set_string_predicate(
                mutation_unit,
                "file_description",
                self.file_description.as_str(),
            );
        }
        if !self.file_product.as_str().is_empty() {
            set_string_predicate(mutation_unit, "file_product", self.file_product.as_str());
        }
        if !self.file_company.as_str().is_empty() {
            set_string_predicate(mutation_unit, "file_company", self.file_company.as_str());
        }
        if !self.file_directory.as_str().is_empty() {
            set_string_predicate(mutation_unit, "file_directory", self.file_directory.as_str());
        }
        if !self.md5_hash.as_str().is_empty() {
            set_string_predicate(mutation_unit, "md5_hash", self.md5_hash.as_str());
        }
        if !self.sha1_hash.as_str().is_empty() {
            set_string_predicate(mutation_unit, "sha1_hash", self.sha1_hash.as_str());
        }
        if !self.sha256_hash.as_str().is_empty() {
            set_string_predicate(mutation_unit, "sha256_hash", self.sha256_hash.as_str());
        }
    }

    /// Second attachment phase: every non-zero numeric field as a number
    /// predicate, rendered as the store's signed 64-bit integer.
    #[verifier::spinoff_prover]
    fn attach_number_predicates(&self, mutation_unit: &mut dgraph_query_lib::mutation::MutationUnit)
        ensures
            mutation_strings(*final(mutation_unit)) == file_number_phase_strings(
                *self,
                mutation_strings(*old(mutation_unit)),
            ),
            mutation_numbers(*final(mutation_unit)) == file_number_phase_numbers(
                *self,
                mutation_numbers(*old(mutation_unit)),
            ),
    {
        if self.file_size != 0 {
            set_number_predicate(
                mutation_unit,
                "file_size",
                #[verifier::truncate]
                (self.file_size as i64),
            );
        }
        if self.file_inode != 0 {
            set_number_predicate(
                mutation_unit,
                "file_inode",
                #[verifier::truncate]
                (self.file_inode as i64),
            );
        }
        if self.file_hard_links != 0 {
            set_number_predicate(
                mutation_unit,
                "file_hard_links",
                #[verifier::truncate]
                (self.file_hard_links as i64),
            );
        }
        if self.created_timestamp != 0 {
            set_number_predicate(
                mutation_unit,
                "created_time",
                #[verifier::truncate]
                (self.created_timestamp as i64),
            );
        }
        if self.deleted_timestamp != 0 {
            set_number_predicate(
                mutation_unit,
                "deleted_timestamp",
                #[verifier::truncate]
                (self.deleted_timestamp as i64),
            );
        }
        if self.last_seen_timestamp != 0 {
            set_number_predicate(
                mutation_unit,
                "last_seen_timestamp",
                #[verifier::truncate]
                (self.last_seen_timestamp as i64),
            );
        }
    }

    /// Materialise the node into a mutation unit: the node key and type,
    /// then every non-empty field as a predicate under its own name.
    pub fn attach_predicates_to_mutation_unit(
        &self,
        mutation_unit: &mut dgraph_query_lib::mutation::MutationUnit,
    )
        ensures
            mutation_strings(*final(mutation_unit)) == file_mutation_strings(
                *self,
                mutation_strings(*old(mutation_unit)),
            ),
            mutation_numbers(*final(mutation_unit)) == file_mutation_numbers(
                *self,
                mutation_numbers(*old(mutation_unit)),
            ),
    {
        self.attach_string_predicates(mutation_unit);
        self.attach_number_predicates(mutation_unit);
    }

    /// The naming fields' identities: name, path, extension, mime type
    /// and size.
    #[verifier::rlimit(100)]
    #[verifier::spinoff_prover]
    fn push_identities_naming(&self, out: &mut Vec<String>)
        ensures
            final(out).deep_view() == old(out).deep_view() + file_identities_naming(*self),
    {
        let ghost base = out.deep_view();
        if !self.file_name.as_str().is_empty() {
            out.push(make_identity(self.node_key.as_str(), "file_name", self.file_name.as_str()));
        }
        if !self.file_path.as_str().is_empty() {
            out.push(make_identity(self.node_key.as_str(), "file_path", self.file_path.as_str()));
        }
        if !self.file_extension.as_str().is_empty() {
            out.push(
                make_identity(
                    self.node_key.as_str(),
                    "file_extension",
                    self.file_extension.as_str(),
                ),
            );
        }
        if !self.file_mime_type.as_str().is_empty() {
            out.push(
                make_identity(
                    self.node_key.as_str(),
                    "file_mime_type",
                    self.file_mime_type.as_str(),
                ),
            );
        }
        if self.file_size != 0 {
            let rendered = u64_to_dec_string(self.file_size);
            out.push(make_identity(self.node_key.as_str(), "file_size", rendered.as_str()));
        }
        proof {
            assert(final(out).deep_view() =~= base + file_identities_naming(*self));
        }
    }

    /// The descriptive fields' identities: version, description, product,
    /// company and directory.
    #[verifier::rlimit(100)]
    #[verifier::spinoff_prover]
    fn push_identities_details(&self, out: &mut Vec<String>)
        ensures
            final(out).deep_view() == old(out).deep_view() + file_identities_details(*self),
    {
        let ghost base = out.deep_view();
        if !self.file_version.as_str().is_empty() {
            out.push(
                make_identity(self.node_key.as_str(), "file_version", self.file_version.as_str()),
            );
        }
        if !self.file_description.as_str().is_empty() {
            out.push(
                make_identity(
                    self.node_key.as_str(),
                    "file_description",
                    self.file_description.as_str(),
                ),
            );
        }
        if !self.file_product.as_str().is_empty() {
            out.push(
                make_identity(self.node_key.as_str(), "file_product", self.file_product.as_str()),
            );
        }
        if !self.file_company.as_str().is_empty() {
            out.push(
                make_identity(self.node_key.as_str(), "file_company", self.file_company.as_str()),
            );
        }
        if !self.file_directory.as_str().is_empty() {
            out.push(
                make_identity(
                    self.node_key.as_str(),
                    "file_directory",
                    self.file_directory.as_str(),
                ),
            );
        }
        proof {
            assert(final(out).deep_view() =~= base + file_identities_details(*self));
        }
    }

    /// The second half of the identity list: link counts, hashes and
    /// timestamps.
    #[verifier::rlimit(100)]
    #[verifier::spinoff_prover]
    fn push_identities_tail(&self, out: &mut Vec<String>)
        ensures
            final(out).deep_view() == old(out).deep_view() + file_identities_tail(*self),
    {
        let ghost base = out.deep_view();
        if self.file_inode != 0 {
            let rendered = u64_to_dec_string(self.file_inode);
            out.push(make_identity(self.node_key.as_str(), "file_inode", rendered.as_str()));
        }
        if self.file_hard_links != 0 {
            let rendered = u64_to_dec_string(self.file_hard_links);
            out.push(make_identity(self.node_key.as_str(), "file_hard_links", rendered.as_str()));
        }
        if !self.md5_hash.as_str().is_empty() {
            out.push(make_identity(self.node_key.as_str(), "md5_hash", self.md5_hash.as_str()));
        }
        if !self.sha1_hash.as_str().is_empty() {
            out.push(make_identity(self.node_key.as_str(), "sha1_hash", self.sha1_hash.as_str()));
        }
        if !self.sha256_hash.as_str().is_empty() {
            out.push(
                make_identity(self.node_key.as_str(), "sha256_hash", self.sha256_hash.as_str()),
            );
        }
        if self.created_timestamp != 0 {
            let rendered = u64_to_dec_string(self.created_timestamp);
            out.push(
                make_identity(self.node_key.as_str(), "created_timestamp", rendered.as_str()),
            );
        }
        if self.deleted_timestamp != 0 {
            let rendered = u64_to_dec_string(self.deleted_timestamp);
            out.push(
                make_identity(self.node_key.as_str(), "deleted_timestamp", rendered.as_str()),
            );
        }
        if self.last_seen_timestamp != 0 {
            let rendered = u64_to_dec_string(self.last_seen_timestamp);
            out.push(
                make_identity(self.node_key.as_str(), "last_seen_timestamp", rendered.as_str()),
            );
        }
        proof {
            assert(final(out).deep_view() =~= base + file_identities_tail(*self));
        }
    }

    /// The identity strings of this node's predicates: one
    /// `node_key:name:value` entry per non-empty field.
    pub fn get_cache_identities_for_predicates(&self) -> (r: Vec<String>)
        ensures
            r.deep_view() == file_identities(*self),
    {
        let mut out: Vec<String> = Vec::new();
        proof {
            assert(out.deep_view() =~= Seq::<Seq<char>>::empty());
        }
        self.push_identities_naming(&mut out);
        self.push_identities_details(&mut out);
        self.push_identities_tail(&mut out);
        proof {
            assert(out.deep_view() =~= file_identities(*self));
        }
        out
    }
}

/// The string predicates of the first attachment phase: the node key, the
/// type, and each non-empty string field.
pub open spec fn file_string_phase_strings(f: File, m0: Map<Seq<char>, Seq<char>>) -> Map<
    Seq<char>,
    Seq<char>,
> {
    let m = m0.insert("node_key"@, f.node_key@).insert("dgraph.type"@, "File"@);
    let m = if f.file_name@.len() != 0 {
        m.insert("file_name"@, f.file_name@)
    } else {
        m
    };
    let m = if f.file_path@.len() != 0 {
        m.insert("file_path"@, f.file_path@)
    } else {
        m
    };
    let m = if f.file_extension@.len() != 0 {
        m.insert("file_extension"@, f.file_extension@)
    } else {
        m
    };
    let m = if f.file_mime_type@.len() != 0 {
        m.insert("file_mime_type"@, f.file_mime_type@)
    } else {
        m
    };
    let m = if f.file_version@.len() != 0 {
        m.insert("file_version"@, f.file_version@)
    } else {
        m
    };
    let m = if f.file_description@.len() != 0 {
        m.insert("file_description"@, f.file_description@)
    } else {
        m
    };
    let m = if f.file_product@.len() != 0 {
        m.insert("file_product"@, f.file_product@)
    } else {
        m
    };
    let m = if f.file_company@.len() != 0 {
        m.insert("file_company"@, f.file_company@)
    } else {
        m
    };
    let m = if f.file_directory@.len() != 0 {
        m.insert("file_directory"@, f.file_directory@)
    } else {
        m
    };
    let m = if f.md5_hash@.len() != 0 {
        m.insert("md5_hash"@, f.md5_hash@)
    } else {
        m
    };
    let m = if f.sha1_hash@.len() != 0 {
        m.insert("sha1_hash"@, f.sha1_hash@)
    } else {
        m
    };
    let m = if f.sha256_hash@.len() != 0 {
        m.insert("sha256_hash"@, f.sha256_hash@)
    } else {
        m
    };
    m
}

/// What the first attachment phase does to the number map: a string
/// predicate drops any number held under the same name.
pub open spec fn file_string_phase_numbers(f: File, m0: Map<Seq<char>, int>) -> Map<
    Seq<char>,
    int,
> {
    let m = m0.remove("node_key"@).remove("dgraph.type"@);
    let m = if f.file_name@.len() != 0 {
        m.remove("file_name"@)
    } else {
        m
    };
    let m = if f.file_path@.len() != 0 {
        m.remove("file_path"@)
    } else {
        m
    };
    let m = if f.file_extension@.len() != 0 {
        m.remove("file_extension"@)
    } else {
        m
    };
    let m = if f.file_mime_type@.len() != 0 {
        m.remove("file_mime_type"@)
    } else {
        m
    };
    let m = if f.file_version@.len() != 0 {
        m.remove("file_version"@)
    } else {
        m
    };
    let m = if f.file_description@.len() != 0 {
        m.remove("file_description"@)
    } else {
        m
    };
    let m = if f.file_product@.len() != 0 {
        m.remove("file_product"@)
    } else {
        m
    };
    let m = if f.file_company@.len() != 0 {
        m.remove("file_company"@)
    } else {
        m
    };
    let m = if f.file_directory@.len() != 0 {
        m.remove("file_directory"@)
    } else {
        m
    };
    let m = if f.md5_hash@.len() != 0 {
        m.remove("md5_hash"@)
    } else {
        m
    };
    let m = if f.sha1_hash@.len() != 0 {
        m.remove("sha1_hash"@)
    } else {
        m
    };
    let m = if f.sha256_hash@.len() != 0 {
        m.remove("sha256_hash"@)
    } else {
        m
    };
    m
}

/// What the second attachment phase does to the string map: a number
/// predicate drops any string held under the same name.
pub open spec fn file_number_phase_strings(f: File, m0: Map<Seq<char>, Seq<char>>) -> Map<
    Seq<char>,
    Seq<char>,
> {
    let m = if f.file_size != 0 {
        m0.remove("file_size"@)
    } else {
        m0
    };
    let m = if f.file_inode != 0 {
        m.remove("file_inode"@)
    } else {
        m
    };
    let m = if f.file_hard_links != 0 {
        m.remove("file_hard_links"@)
    } else {
        m
    };
    let m = if f.created_timestamp != 0 {
        m.remove("created_time"@)
    } else {
        m
    };
    let m = if f.deleted_timestamp != 0 {
        m.remove("deleted_timestamp"@)
    } else {
        m
    };
    let m = if f.last_seen_timestamp != 0 {
        m.remove("last_seen_timestamp"@)
    } else {
        m
    };
    m
}

/// The number predicates of the second attachment phase: each non-zero
/// numeric field, as the store's signed 64-bit integer.
pub open spec fn file_number_phase_numbers(f: File, m0: Map<Seq<char>, int>) -> Map<
    Seq<char>,
    int,
> {
    let m = if f.file_size != 0 {
        m0.insert("file_size"@, (f.file_size as i64) as int)
    } else {
        m0
    };
    let m = if f.file_inode != 0 {
        m.insert("file_inode"@, (f.file_inode as i64) as int)
    } else {
        m
    };
    let m = if f.file_hard_links != 0 {
        m.insert("file_hard_links"@, (f.file_hard_links as i64) as int)
    } else {
        m
    };
    let m = if f.created_timestamp != 0 {
        m.insert("created_time"@, (f.created_timestamp as i64) as int)
    } else {
        m
    };
    let m = if f.deleted_timestamp != 0 {
        m.insert("deleted_timestamp"@, (f.deleted_timestamp as i64) as int)
    } else {
        m
    };
    let m = if f.last_seen_timestamp != 0 {
        m.insert("last_seen_timestamp"@, (f.last_seen_timestamp as i64) as int)
    } else {
        m
    };
    m
}

/// The string predicates a file node attaches, applied over the string
/// map a unit already holds.
pub open spec fn file_mutation_strings(f: File, m0: Map<Seq<char>, Seq<char>>) -> Map<
    Seq<char>,
    Seq<char>,
> {
    file_number_phase_strings(f, file_string_phase_strings(f, m0))
}

/// The number predicates a file node attaches, applied over the number
/// map a unit already holds.
pub open spec fn file_mutation_numbers(f: File, m0: Map<Seq<char>, int>) -> Map<Seq<char>, int> {
    file_number_phase_numbers(f, file_string_phase_numbers(f, m0))
}

/// The identities of a file node's naming fields.
pub open spec fn file_identities_naming(f: File) -> Seq<Seq<char>> {
    let s = Seq::<Seq<char>>::empty();
    let s = if f.file_name@.len() != 0 {
        s.push(ident_of(f.node_key@, "file_name"@, f.file_name@))
    } else {
        s
    };
    let s = if f.file_path@.len() != 0 {
        s.push(ident_of(f.node_key@, "file_path"@, f.file_path@))
    } else {
        s
    };
    let s = if f.file_extension@.len() != 0 {
        s.push(ident_of(f.node_key@, "file_extension"@, f.file_extension@))
    } else {
        s
    };
    let s = if f.file_mime_type@.len() != 0 {
        s.push(ident_of(f.node_key@, "file_mime_type"@, f.file_mime_type@))
    } else {
        s
    };
    let s = if f.file_size != 0 {
        s.push(ident_of(f.node_key@, "file_size"@, dec_str(f.file_size as nat)))
    } else {
        s
    };
    s
}

/// The identities of a file node's descriptive fields.
pub open spec fn file_identities_details(f: File) -> Seq<Seq<char>> {
    let s = Seq::<Seq<char>>::empty();
    let s = if f.file_version@.len() != 0 {
        s.push(ident_of(f.node_key@, "file_version"@, f.file_version@))
    } else {
        s
    };
    let s = if f.file_description@.len() != 0 {
        s.push(ident_of(f.node_key@, "file_description"@, f.file_description@))
    } else {
        s
    };
    let s = if f.file_product@.len() != 0 {
        s.push(ident_of(f.node_key@, "file_product"@, f.file_product@))
    } else {
        s
    };
    let s = if f.file_company@.len() != 0 {
        s.push(ident_of(f.node_key@, "file_company"@, f.file_company@))
    } else {
        s
    };
    let s = if f.file_directory@.len() != 0 {
        s.push(ident_of(f.node_key@, "file_directory"@, f.file_directory@))
    } else {
        s
    };
    s
}

/// The second half of a file node's identity strings.
pub open spec fn file_identities_tail(f: File) -> Seq<Seq<char>> {
    let s = Seq::<Seq<char>>::empty();
    let s = if f.file_inode != 0 {
        s.push(ident_of(f.node_key@, "file_inode"@, dec_str(f.file_inode as nat)))
    } else {
        s
    };
    let s = if f.file_hard_links != 0 {
        s.push(ident_of(f.node_key@, "file_hard_links"@, dec_str(f.file_hard_links as nat)))
    } else {
        s
    };
    let s = if f.md5_hash@.len() != 0 {
        s.push(ident_of(f.node_key@, "md5_hash"@, f.md5_hash@))
    } else {
        s
    };
    let s = if f.sha1_hash@.len() != 0 {
        s.push(ident_of(f.node_key@, "sha1_hash"@, f.sha1_hash@))
    } else {
        s
    };
    let s = if f.sha256_hash@.len() != 0 {
        s.push(ident_of(f.node_key@, "sha256_hash"@, f.sha256_hash@))
    } else {
        s
    };
    let s = if f.created_timestamp != 0 {
        s.push(ident_of(f.node_key@, "created_timestamp"@, dec_str(f.created_timestamp as nat)))
    } else {
        s
    };
    let s = if f.deleted_timestamp != 0 {
        s.push(ident_of(f.node_key@, "deleted_timestamp"@, dec_str(f.deleted_timestamp as nat)))
    } else {
        s
    };
    let s = if f.last_seen_timestamp != 0 {
        s.push(
            ident_of(f.node_key@, "last_seen_timestamp"@, dec_str(f.last_seen_timestamp as nat)),
        )
    } else {
        s
    };
    s
}

/// The identity strings a file node contributes, in attachment order.
pub open spec fn file_identities(f: File) -> Seq<Seq<char>> {
    file_identities_naming(f) + file_identities_details(f) + file_identities_tail(f)
}

} // verus!
