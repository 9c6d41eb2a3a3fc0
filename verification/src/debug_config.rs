//! The debug policy of the host and the debug level of a virtual machine.

use crate::endian::{le_value, lemma_le_value_bound, lemma_pow256_widths, read_le};
use vstd::prelude::*;
use vstd::string::StringSliceAdditionalSpecFns;

verus! {

/// Why a debug policy could not be read.
#[derive(Clone, Copy, Debug, PartialEq, Eq, Structural)]
pub enum DebugPolicyError {
    /// A file of the policy exists and could not be read.
    FailedToRead,
    /// A value of the policy is not four bytes long.
    Malformed,
    /// A value of the policy is neither 0 nor 1.
    InvalidValue(u32),
    /// The device tree failed while a node was looked up.
    FailedToGetNode,
    /// The device tree failed while a property was looked up.
    FailedToGetProp,
    /// A property of the policy is neither 0 nor 1.
    InvalidPropValue,
}

/// What became of reading one file of the host's policy.
pub enum PolicyFile {
    /// There is no such file.
    NotFound,
    /// The file is there and could not be read.
    Unreadable,
    /// The bytes of the file.
    Contents(Vec<u8>),
}

/// What became of looking up one property in a device tree.
#[derive(Clone, Copy, Debug, PartialEq, Eq, Structural)]
pub enum PropLookup {
    /// The tree has no such node.
    NodeAbsent,
    /// The tree failed while the node was looked up.
    NodeFailed,
    /// The node has no such property.
    PropAbsent,
    /// The tree failed while the property was looked up.
    PropFailed,
    /// The property holds this number.
    Value(u32),
}

/// The number that four bytes denote most significant byte first.
pub open spec fn be_u32(bytes: Seq<u8>) -> u32
    recommends
        bytes.len() == 4,
{
    le_value(bytes.reverse()) as u32
}

/// What a file of the host's policy says: a missing file says no, a file
/// of four bytes that denote 0 or 1 says no or yes, and anything else is an
/// error.
pub open spec fn policy_file_bool(file: PolicyFile) -> Result<bool, DebugPolicyError> {
    match file {
        PolicyFile::NotFound => Ok(false),
        PolicyFile::Unreadable => Err(DebugPolicyError::FailedToRead),
        PolicyFile::Contents(bytes) => if bytes@.len() != 4 {
            Err(DebugPolicyError::Malformed)
        } else if be_u32(bytes@) == 0 {
            Ok(false)
        } else if be_u32(bytes@) == 1 {
            Ok(true)
        } else {
            Err(DebugPolicyError::InvalidValue(be_u32(bytes@)))
        },
    }
}

/// What a property of a device tree says: a missing node or property says
/// no, the numbers 0 and 1 say no and yes, and anything else is an error.
pub open spec fn prop_bool(lookup: PropLookup) -> Result<bool, DebugPolicyError> {
    match lookup {
        PropLookup::NodeAbsent => Ok(false),
        PropLookup::NodeFailed => Err(DebugPolicyError::FailedToGetNode),
        PropLookup::PropAbsent => Ok(false),
        PropLookup::PropFailed => Err(DebugPolicyError::FailedToGetProp),
        PropLookup::Value(value) => if value == 0 {
            Ok(false)
        } else if value == 1 {
            Ok(true)
        } else {
            Err(DebugPolicyError::InvalidPropValue)
        },
    }
}

/// The policy that three answers make, or the first error among them in
/// the order log, ramdump, adb.
pub open spec fn policy_of(
    log: Result<bool, DebugPolicyError>,
    ramdump: Result<bool, DebugPolicyError>,
    adb: Result<bool, DebugPolicyError>,
) -> Result<DebugPolicy, DebugPolicyError> {
    match (log, ramdump, adb) {
        (Ok(log), Ok(ramdump), Ok(adb)) => Ok(DebugPolicy { log, ramdump, adb }),
        (Err(e), _, _) => Err(e),
        (_, Err(e), _) => Err(e),
        (_, _, Err(e)) => Err(e),
    }
}

/// Reads one value of the host's policy. It is yes only where the value is
/// set to 1.
pub fn get_debug_policy_bool(file: &PolicyFile) -> (value: Result<bool, DebugPolicyError>)
    ensures
        value == policy_file_bool(*file),
{
    match file {
        PolicyFile::NotFound => Ok(false),
        PolicyFile::Unreadable => Err(DebugPolicyError::FailedToRead),
        PolicyFile::Contents(bytes) => {
            if bytes.len() != 4 {
                return Err(DebugPolicyError::Malformed);
            }
            let mut reversed: Vec<u8> = Vec::new();
            reversed.push(bytes[3]);
            reversed.push(bytes[2]);
            reversed.push(bytes[1]);
            reversed.push(bytes[0]);
            proof {
                assert(reversed@ =~= bytes@.reverse());
                assert(reversed@.subrange(0, 4) =~= reversed@);
                lemma_le_value_bound(reversed@);
                lemma_pow256_widths();
            }
            let number: u32 = read_le(reversed.as_slice(), 0, 4) as u32;
            if number == 0 {
                Ok(false)
            } else if number == 1 {
                Ok(true)
            } else {
                Err(DebugPolicyError::InvalidValue(number))
            }
        },
    }
}

/// Reads one property of a policy in a device tree. It is yes only where
/// the property is set to 1.
pub fn get_fdt_prop_bool(lookup: PropLookup) -> (value: Result<bool, DebugPolicyError>)
    ensures
        value == prop_bool(lookup),
{
    match lookup {
        PropLookup::NodeAbsent => Ok(false),
        PropLookup::NodeFailed => Err(DebugPolicyError::FailedToGetNode),
        PropLookup::PropAbsent => Ok(false),
        PropLookup::PropFailed => Err(DebugPolicyError::FailedToGetProp),
        PropLookup::Value(0) => Ok(false),
        PropLookup::Value(1) => Ok(true),
        PropLookup::Value(_) => Err(DebugPolicyError::InvalidPropValue),
    }
}

/// What the host allows of debugging, whatever a virtual machine asks for.
#[derive(Clone, Copy, Debug, PartialEq, Eq, Structural)]
pub struct DebugPolicy {
    pub log: bool,
    pub ramdump: bool,
    pub adb: bool,
}

impl Default for DebugPolicy {
    fn default() -> (policy: DebugPolicy)
        ensures
            policy == (DebugPolicy { log: false, ramdump: false, adb: false }),
    {
        DebugPolicy { log: false, ramdump: false, adb: false }
    }
}

impl DebugPolicy {
    /// The policy of an overlay, from what was found of its three
    /// properties in the tree that the overlay was applied to.
    pub fn from_overlay(log: PropLookup, ramdump: PropLookup, adb: PropLookup) -> (policy: Result<
        DebugPolicy,
        DebugPolicyError,
    >)
        ensures
            policy == policy_of(prop_bool(log), prop_bool(ramdump), prop_bool(adb)),
    {
        let log = match get_fdt_prop_bool(log) {
            Ok(value) => value,
            Err(e) => {
                return Err(e);
            },
        };
        let ramdump = match get_fdt_prop_bool(ramdump) {
            Ok(value) => value,
            Err(e) => {
                return Err(e);
            },
        };
        let adb = match get_fdt_prop_bool(adb) {
            Ok(value) => value,
            Err(e) => {
                return Err(e);
            },
        };
        Ok(DebugPolicy { log, ramdump, adb })
    }

    /// The policy of the host, from what was read of its three files.
    pub fn from_host(log: &PolicyFile, ramdump: &PolicyFile, adb: &PolicyFile) -> (policy: Result<
        DebugPolicy,
        DebugPolicyError,
    >)
        ensures
            policy == policy_of(
                policy_file_bool(*log),
                policy_file_bool(*ramdump),
                policy_file_bool(*adb),
            ),
    {
        let log = match get_debug_policy_bool(log) {
            Ok(value) => value,
            Err(e) => {
                return Err(e);
            },
        };
        let ramdump = match get_debug_policy_bool(ramdump) {
            Ok(value) => value,
            Err(e) => {
                return Err(e);
            },
        };
        let adb = match get_debug_policy_bool(adb) {
            Ok(value) => value,
            Err(e) => {
                return Err(e);
            },
        };
        Ok(DebugPolicy { log, ramdump, adb })
    }
}

/// How much debugging a virtual machine asks for.
#[allow(non_camel_case_types)]
#[derive(Clone, Copy, Debug, PartialEq, Eq, Structural)]
pub enum DebugLevel {
    NONE,
    FULL,
}

/// Where the debug policy is taken from.
#[derive(Clone, Copy, Debug, PartialEq, Eq, Structural)]
pub enum PolicySource {
    /// From the overlay at the path that the system property names.
    Overlay,
    /// From the device tree of the host.
    Host,
}

/// The debug level of a virtual machine together with the policy of the
/// host.
#[derive(Clone, Copy, Debug, PartialEq, Eq, Structural)]
pub struct DebugConfig {
    pub debug_level: DebugLevel,
    pub debug_policy: DebugPolicy,
}

impl DebugConfig {
    /// The configuration of a machine whose level is `debug_level`, under
    /// the policy `debug_policy`. A machine that names no level has none,
    /// and a policy that could not be loaded allows nothing.
    pub fn new(debug_level: Option<DebugLevel>, debug_policy: Option<DebugPolicy>) -> (config:
        DebugConfig)
        ensures
            config.debug_level == match debug_level {
                Some(level) => level,
                None => DebugLevel::NONE,
            },
            config.debug_policy == match debug_policy {
                Some(policy) => policy,
                None => DebugPolicy { log: false, ramdump: false, adb: false },
            },
    {
        let debug_level = match debug_level {
            Some(level) => level,
            None => DebugLevel::NONE,
        };
        let debug_policy = match debug_policy {
            Some(policy) => policy,
            None => DebugPolicy::default(),
        };
        DebugConfig { debug_level, debug_policy }
    }

    /// Where to take the policy from, given the path that the system
    /// property holds: from the overlay where a path is set and not empty,
    /// from the host otherwise.
    pub fn policy_source(custom_path: Option<&str>) -> (source: PolicySource)
        ensures
            source == match custom_path {
                Some(path) => if path@.len() > 0 {
                    PolicySource::Overlay
                } else {
                    PolicySource::Host
                },
                None => PolicySource::Host,
            },
    {
        match custom_path {
            Some(path) => if !path.is_empty() {
                PolicySource::Overlay
            } else {
                PolicySource::Host
            },
            None => PolicySource::Host,
        }
    }

    /// The policy that was loaded, or nothing where loading failed.
    pub fn get_debug_policy(loaded: Result<DebugPolicy, DebugPolicyError>) -> (policy: Option<
        DebugPolicy,
    >)
        ensures
            policy == match loaded {
                Ok(policy) => Some(policy),
                Err(_) => None,
            },
    {
        match loaded {
            Ok(policy) => Some(policy),
            Err(_) => None,
        }
    }

    /// The configuration of a machine whose level is `debug_level`, under a
    /// policy that allows nothing.
    pub fn new_with_debug_level(debug_level: DebugLevel) -> (config: DebugConfig)
        ensures
            config.debug_level == debug_level,
            config.debug_policy == (DebugPolicy { log: false, ramdump: false, adb: false }),
    {
        DebugConfig { debug_level, debug_policy: DebugPolicy::default() }
    }

    /// Whether console output is to be set up so that the machine leaves
    /// its console and adb logs.
    pub fn should_prepare_console_output(&self) -> (needed: bool)
        ensures
            needed == (self.debug_level != DebugLevel::NONE || self.debug_policy.log
                || self.debug_policy.adb),
    {
        self.debug_level != DebugLevel::NONE || self.debug_policy.log || self.debug_policy.adb
    }

    /// Whether the debug APEXes are to be included.
    pub fn should_include_debug_apexes(&self) -> (needed: bool)
        ensures
            needed == (self.debug_level != DebugLevel::NONE || self.debug_policy.adb),
    {
        self.debug_level != DebugLevel::NONE || self.debug_policy.adb
    }

    /// Whether a ramdump is to be supported.
    pub fn is_ramdump_needed(&self) -> (needed: bool)
        ensures
            needed == (self.debug_level != DebugLevel::NONE || self.debug_policy.ramdump),
    {
        self.debug_level != DebugLevel::NONE || self.debug_policy.ramdump
    }
}

/// A text that was to hold no zero byte holds one at this position.
#[derive(Clone, Copy, Debug, PartialEq, Eq, Structural)]
pub struct NulError(pub usize);

/// The position of the first zero byte, if there is one.
pub open spec fn first_nul(bytes: Seq<u8>) -> Option<int>
    decreases bytes.len(),
{
    if bytes.len() == 0 {
        None
    } else if bytes[0] == 0 {
        Some(0)
    } else {
        match first_nul(bytes.drop_first()) {
            Some(at) => Some(at + 1),
            None => None,
        }
    }
}

/// `first_nul` finds the first zero byte, and finds none only where there
/// is none.
pub proof fn lemma_first_nul(bytes: Seq<u8>)
    ensures
        match first_nul(bytes) {
            Some(at) => 0 <= at < bytes.len() && bytes[at] == 0 && forall|i: int|
                0 <= i < at ==> bytes[i] != 0,
            None => forall|i: int| 0 <= i < bytes.len() ==> bytes[i] != 0,
        },
    decreases bytes.len(),
{
    if bytes.len() > 0 && bytes[0] != 0 {
        let rest = bytes.drop_first();
        lemma_first_nul(rest);
        match first_nul(rest) {
            Some(at) => {
                assert forall|i: int| 0 <= i < at + 1 implies bytes[i] != 0 by {
                    if i > 0 {
                        assert(bytes[i] == rest[i - 1]);
                    }
                }
            },
            None => {
                assert forall|i: int| 0 <= i < bytes.len() implies bytes[i] != 0 by {
                    if i > 0 {
                        assert(bytes[i] == rest[i - 1]);
                    }
                }
            },
        }
    }
}

/// Looks for the first zero byte of a text.
fn find_nul(text: &str) -> (found: Option<usize>)
    ensures
        match first_nul(text.spec_bytes()) {
            Some(at) => found == Some(at as usize) && at <= usize::MAX,
            None => found is None,
        },
{
    let bytes = text.as_bytes();
    let mut i: usize = 0;
    proof {
        lemma_first_nul(bytes@);
    }
    while i < bytes.len()
        invariant
            i <= bytes@.len(),
            bytes@ == text.spec_bytes(),
            forall|k: int| 0 <= k < i ==> bytes@[k] != 0,
        decreases bytes@.len() - i,
    {
        if bytes[i] == 0 {
            proof {
                lemma_first_nul(bytes@);
            }
            return Some(i);
        }
        i = i + 1;
    }
    None
}

/// Where a value of the debug policy stands in a device tree: the path of
/// its node and the name of its property.
#[derive(Debug, PartialEq, Eq)]
pub struct DPPath {
    pub node_path: String,
    pub prop_name: String,
}

impl DPPath {
    /// The place of the property `prop_name` of the node at `node_path`.
    /// Neither may hold a zero byte; the first one found is reported.
    pub fn new(node_path: &str, prop_name: &str) -> (path: Result<DPPath, NulError>)
        ensures
            match (first_nul(node_path.spec_bytes()), first_nul(prop_name.spec_bytes())) {
                (Some(at), _) => path matches Err(e) && e == NulError(at as usize),
                (None, Some(at)) => path matches Err(e) && e == NulError(at as usize),
                (None, None) => path matches Ok(p) && p.node_path@ == node_path@ && p.prop_name@
                    == prop_name@,
            },
    {
        if let Some(at) = find_nul(node_path) {
            return Err(NulError(at));
        }
        if let Some(at) = find_nul(prop_name) {
            return Err(NulError(at));
        }
        Ok(DPPath { node_path: String::from_str(node_path), prop_name: String::from_str(prop_name) })
    }

    /// The file of the host that holds the value.
    pub fn to_path(&self) -> (path: String)
        ensures
            path@ == "/proc/device-tree"@ + self.node_path@ + "/"@ + self.prop_name@,
    {
        let mut path = String::from_str("/proc/device-tree");
        path.append(self.node_path.as_str());
        path.append("/");
        path.append(self.prop_name.as_str());
        path
    }

    /// The place of the value that allows logs.
    pub fn log() -> (path: DPPath)
        ensures
            path.node_path@ == "/avf/guest/common"@,
            path.prop_name@ == "log"@,
    {
        DPPath {
            node_path: String::from_str("/avf/guest/common"),
            prop_name: String::from_str("log"),
        }
    }

    /// The place of the value that allows ramdumps.
    pub fn ramdump() -> (path: DPPath)
        ensures
            path.node_path@ == "/avf/guest/common"@,
            path.prop_name@ == "ramdump"@,
    {
        DPPath {
            node_path: String::from_str("/avf/guest/common"),
            prop_name: String::from_str("ramdump"),
        }
    }

    /// The place of the value that allows adb.
    pub fn adb() -> (path: DPPath)
        ensures
            path.node_path@ == "/avf/guest/microdroid"@,
            path.prop_name@ == "adb"@,
    {
        DPPath {
            node_path: String::from_str("/avf/guest/microdroid"),
            prop_name: String::from_str("adb"),
        }
    }
}

} // verus!
