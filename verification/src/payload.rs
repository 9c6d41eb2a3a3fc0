//! The payload disk of a virtual machine: what goes into it, and where.

use crate::classpath::{apex_names_in, find_apex_names_in_classpath, prepend, texts};
use crate::names::{insert_all_sorted, insert_sorted, strictly_sorted};
use crate::text::{append_decimal, decimal};
use vstd::prelude::*;

verus! {

/// Why a payload could not be put together.
#[derive(Clone, Copy, Debug, PartialEq, Eq, Structural)]
pub enum PayloadError {
    /// No APEX of the asked name is installed.
    ApexNotFound,
}

/// An installed APEX: its name and the path of its file.
#[derive(Debug, PartialEq, Eq)]
pub struct ApexInfo {
    pub name: String,
    pub path: String,
}

/// The installed APEXes.
#[derive(Debug, PartialEq, Eq)]
pub struct ApexInfoList {
    pub list: Vec<ApexInfo>,
}

/// The index of the first APEX of `list` whose name is `name`, if there is
/// one.
pub open spec fn position_of(list: Seq<ApexInfo>, name: Seq<char>) -> Option<int>
    decreases list.len(),
{
    if list.len() == 0 {
        None
    } else if list[0].name@ == name {
        Some(0)
    } else {
        match position_of(list.drop_first(), name) {
            Some(i) => Some(i + 1),
            None => None,
        }
    }
}

/// `position_of` gives the first index at which the name stands, and
/// nothing only where it stands nowhere.
pub proof fn lemma_position_of(list: Seq<ApexInfo>, name: Seq<char>)
    ensures
        match position_of(list, name) {
            Some(i) => {
                &&& 0 <= i < list.len()
                &&& list[i].name@ == name
                &&& forall|j: int| 0 <= j < i ==> list[j].name@ != name
            },
            None => forall|j: int| 0 <= j < list.len() ==> list[j].name@ != name,
        },
    decreases list.len(),
{
    if list.len() > 0 && list[0].name@ != name {
        let rest = list.drop_first();
        lemma_position_of(rest, name);
        match position_of(rest, name) {
            Some(i) => {
                assert forall|j: int| 0 <= j < i + 1 implies list[j].name@ != name by {
                    if j > 0 {
                        assert(list[j] == rest[j - 1]);
                    }
                }
            },
            None => {
                assert forall|j: int| 0 <= j < list.len() implies list[j].name@ != name by {
                    if j > 0 {
                        assert(list[j] == rest[j - 1]);
                    }
                }
            },
        }
    }
}

impl ApexInfoList {
    /// The path of the first APEX named `apex_name`.
    pub fn get_path_for(&self, apex_name: &str) -> (path: Result<String, PayloadError>)
        ensures
            match position_of(self.list@, apex_name@) {
                Some(i) => path matches Ok(p) && p@ == self.list@[i].path@,
                None => path matches Err(e) && e == PayloadError::ApexNotFound,
            },
    {
        let wanted = String::from_str(apex_name);
        let mut i: usize = 0;
        while i < self.list.len()
            invariant
                i <= self.list@.len(),
                wanted@ == apex_name@,
                forall|j: int| 0 <= j < i ==> self.list@[j].name@ != apex_name@,
            decreases self.list@.len() - i,
        {
            if self.list[i].name == wanted {
                proof {
                    lemma_position_of(self.list@, apex_name@);
                }
                return Ok(self.list[i].path.clone());
            }
            i = i + 1;
        }
        proof {
            lemma_position_of(self.list@, apex_name@);
        }
        Err(PayloadError::ApexNotFound)
    }
}

/// What the package manager knows of the installed APEXes.
#[derive(Debug, PartialEq, Eq)]
pub struct PackageManager {
    pub apex_info_list: ApexInfoList,
}

impl PackageManager {
    /// A package manager over the given list.
    pub fn new(apex_info_list: ApexInfoList) -> (manager: PackageManager)
        ensures
            manager.apex_info_list == apex_info_list,
    {
        PackageManager { apex_info_list }
    }

    /// The path of the APEX named `name`: that of its staged version where
    /// one is asked for and `staged` holds it, else that of the installed
    /// one.
    pub fn get_apex_path(&self, name: &str, prefer_staged: bool, staged: Option<String>) -> (path:
        Result<String, PayloadError>)
        ensures
            match (prefer_staged, staged) {
                (true, Some(staged_path)) => path matches Ok(p) && p@ == staged_path@,
                _ => match position_of(self.apex_info_list.list@, name@) {
                    Some(i) => path matches Ok(p) && p@ == self.apex_info_list.list@[i].path@,
                    None => path matches Err(e) && e == PayloadError::ApexNotFound,
                },
            },
    {
        if prefer_staged {
            if let Some(staged_path) = staged {
                return Ok(staged_path);
            }
        }
        self.apex_info_list.get_path_for(name)
    }
}

/// What the metadata says of one APEX of the payload.
#[derive(Debug, PartialEq, Eq)]
pub struct ApexPayload {
    pub name: String,
    pub partition_name: String,
}

/// What the metadata says of the APK of the payload.
#[derive(Debug, PartialEq, Eq)]
pub struct ApkPayload {
    pub name: String,
    pub payload_partition_name: String,
    pub idsig_partition_name: String,
}

/// The metadata of a payload.
#[derive(Debug, PartialEq, Eq)]
pub struct Metadata {
    pub version: u32,
    pub apexes: Vec<ApexPayload>,
    pub apk: ApkPayload,
    pub payload_config_path: String,
}

/// The name of the partition of the APEX with number `index`.
pub open spec fn apex_partition_name(index: nat) -> Seq<char> {
    "microdroid-apex-"@ + decimal(index)
}

/// The name of the partition of the APEX with number `index`.
pub fn apex_partition_label(index: usize) -> (label: String)
    ensures
        label@ == apex_partition_name(index as nat),
{
    let mut label = String::from_str("microdroid-apex-");
    append_decimal(&mut label, index as u64);
    label
}

/// The metadata of a payload with the APEXes `apex_names`, in their order,
/// whose configuration is at `config_path` in the APK.
pub fn make_metadata(config_path: &str, apex_names: &[String]) -> (metadata: Metadata)
    ensures
        metadata.version == 1,
        metadata.apexes@.len() == apex_names@.len(),
        forall|i: int|
            0 <= i < apex_names@.len() ==> {
                &&& (#[trigger] metadata.apexes@[i]).name@ == apex_names@[i]@
                &&& metadata.apexes@[i].partition_name@ == apex_partition_name(i as nat)
            },
        metadata.apk.name@ == "apk"@,
        metadata.apk.payload_partition_name@ == "microdroid-apk"@,
        metadata.apk.idsig_partition_name@ == "microdroid-apk-idsig"@,
        metadata.payload_config_path@ == "/mnt/apk/"@ + config_path@,
{
    let mut apexes: Vec<ApexPayload> = Vec::new();
    let mut i: usize = 0;
    while i < apex_names.len()
        invariant
            i <= apex_names@.len(),
            apexes@.len() == i,
            forall|j: int|
                0 <= j < i ==> {
                    &&& (#[trigger] apexes@[j]).name@ == apex_names@[j]@
                    &&& apexes@[j].partition_name@ == apex_partition_name(j as nat)
                },
        decreases apex_names@.len() - i,
    {
        apexes.push(
            ApexPayload { name: apex_names[i].clone(), partition_name: apex_partition_label(i) },
        );
        i = i + 1;
    }
    let mut payload_config_path = String::from_str("/mnt/apk/");
    payload_config_path.append(config_path);
    Metadata {
        version: 1,
        apexes,
        apk: ApkPayload {
            name: String::from_str("apk"),
            payload_partition_name: String::from_str("microdroid-apk"),
            idsig_partition_name: String::from_str("microdroid-apk-idsig"),
        },
        payload_config_path,
    }
}

/// What the image of a partition is made from.
#[derive(Clone, Copy, Debug, PartialEq, Eq, Structural)]
pub enum PartitionImage {
    /// The file that holds the metadata.
    Metadata,
    /// The file of the APEX with this number.
    Apex(usize),
    /// The APK.
    Apk,
    /// The signature file of the APK.
    Idsig,
    /// The boot configuration for debugging.
    DebugBootconfig,
    /// The instance image.
    Instance,
}

/// One partition of a disk: its label, what its image is made from, and
/// whether the machine may write to it.
#[derive(Debug, PartialEq, Eq)]
pub struct PartitionPlan {
    pub label: String,
    pub image: PartitionImage,
    pub writable: bool,
}

/// The number of partitions of a payload disk with `apexes` APEXes: the
/// metadata, the APEXes, the APK and its signature.
pub open spec fn payload_disk_len(apexes: nat) -> nat {
    apexes + 3
}

/// The partitions of the payload disk of a machine with `apex_count`
/// APEXes: the metadata first, then the APEXes in their order, then the APK
/// and its signature. None of them can be written to.
pub fn make_payload_disk(apex_count: usize) -> (partitions: Vec<PartitionPlan>)
    ensures
        partitions@.len() == payload_disk_len(apex_count as nat),
        partitions@[0].label@ == "payload-metadata"@,
        partitions@[0].image == PartitionImage::Metadata,
        forall|i: int|
            0 <= i < apex_count ==> {
                &&& (#[trigger] partitions@[i + 1]).label@ == apex_partition_name(i as nat)
                &&& partitions@[i + 1].image == PartitionImage::Apex(i as usize)
            },
        partitions@[apex_count + 1].label@ == "microdroid-apk"@,
        partitions@[apex_count + 1].image == PartitionImage::Apk,
        partitions@[apex_count + 2].label@ == "microdroid-apk-idsig"@,
        partitions@[apex_count + 2].image == PartitionImage::Idsig,
        forall|i: int| 0 <= i < partitions@.len() ==> !(#[trigger] partitions@[i]).writable,
{
    let mut partitions: Vec<PartitionPlan> = Vec::new();
    partitions.push(
        PartitionPlan {
            label: String::from_str("payload-metadata"),
            image: PartitionImage::Metadata,
            writable: false,
        },
    );
    let mut i: usize = 0;
    while i < apex_count
        invariant
            i <= apex_count,
            partitions@.len() == i + 1,
            partitions@[0].label@ == "payload-metadata"@,
            partitions@[0].image == PartitionImage::Metadata,
            forall|j: int|
                0 <= j < i ==> {
                    &&& (#[trigger] partitions@[j + 1]).label@ == apex_partition_name(j as nat)
                    &&& partitions@[j + 1].image == PartitionImage::Apex(j as usize)
                },
            forall|j: int| 0 <= j < partitions@.len() ==> !(#[trigger] partitions@[j]).writable,
        decreases apex_count - i,
    {
        partitions.push(
            PartitionPlan {
                label: apex_partition_label(i),
                image: PartitionImage::Apex(i),
                writable: false,
            },
        );
        i = i + 1;
    }
    partitions.push(
        PartitionPlan {
            label: String::from_str("microdroid-apk"),
            image: PartitionImage::Apk,
            writable: false,
        },
    );
    partitions.push(
        PartitionPlan {
            label: String::from_str("microdroid-apk-idsig"),
            image: PartitionImage::Idsig,
            writable: false,
        },
    );
    partitions
}

/// The partitions that are added to the second disk of a machine: the
/// boot configuration for debugging where `debug` is set, then the
/// instance image, which alone can be written to.
pub fn add_microdroid_images(debug: bool) -> (partitions: Vec<PartitionPlan>)
    ensures
        partitions@.len() == (if debug {
            2nat
        } else {
            1nat
        }),
        debug ==> {
            &&& partitions@[0].label@ == "bootconfig"@
            &&& partitions@[0].image == PartitionImage::DebugBootconfig
            &&& !partitions@[0].writable
        },
        partitions@.last().label@ == "vm-instance"@,
        partitions@.last().image == PartitionImage::Instance,
        partitions@.last().writable,
{
    let mut partitions: Vec<PartitionPlan> = Vec::new();
    if debug {
        partitions.push(
            PartitionPlan {
                label: String::from_str("bootconfig"),
                image: PartitionImage::DebugBootconfig,
                writable: false,
            },
        );
    }
    partitions.push(
        PartitionPlan {
            label: String::from_str("vm-instance"),
            image: PartitionImage::Instance,
            writable: true,
        },
    );
    partitions
}

/// The APEXes that every payload needs.
pub open spec fn required_apexes() -> Seq<Seq<char>> {
    seq!["com.android.adbd"@, "com.android.os.statsd"@]
}

/// What one name of a configuration stands for: a name in braces stands for
/// the APEXes of the class path that it names, any other for itself.
pub open spec fn expansion(
    name: Seq<char>,
    bootclasspath: Seq<char>,
    dex2oatbootclasspath: Seq<char>,
    systemserverclasspath: Seq<char>,
) -> Option<Seq<Seq<char>>> {
    if name == "{BOOTCLASSPATH}"@ {
        apex_names_in(bootclasspath)
    } else if name == "{DEX2OATBOOTCLASSPATH}"@ {
        apex_names_in(dex2oatbootclasspath)
    } else if name == "{SYSTEMSERVERCLASSPATH}"@ {
        apex_names_in(systemserverclasspath)
    } else {
        Some(seq![name])
    }
}

/// What the names of a configuration stand for, one after the other;
/// nothing where one of them names a class path with a path that stops at
/// `/apex`.
pub open spec fn expanded(
    apexes: Seq<Seq<char>>,
    bootclasspath: Seq<char>,
    dex2oatbootclasspath: Seq<char>,
    systemserverclasspath: Seq<char>,
) -> Option<Seq<Seq<char>>>
    decreases apexes.len(),
{
    if apexes.len() == 0 {
        Some(Seq::empty())
    } else {
        match expansion(apexes[0], bootclasspath, dex2oatbootclasspath, systemserverclasspath) {
            None => None,
            Some(first) => prepend(
                first,
                expanded(
                    apexes.drop_first(),
                    bootclasspath,
                    dex2oatbootclasspath,
                    systemserverclasspath,
                ),
            ),
        }
    }
}

/// Two lists put together hold what either holds.
proof fn lemma_contains_add(a: Seq<Seq<char>>, b: Seq<Seq<char>>, s: Seq<char>)
    ensures
        (a + b).contains(s) <==> (a.contains(s) || b.contains(s)),
{
    let both = a + b;
    if both.contains(s) {
        let k = choose|k: int| 0 <= k < both.len() && both[k] == s;
        if k < a.len() {
            assert(a[k] == s);
        } else {
            assert(b[k - a.len()] == s);
        }
    }
    if a.contains(s) {
        let k = choose|k: int| 0 <= k < a.len() && a[k] == s;
        assert(both[k] == s);
    }
    if b.contains(s) {
        let k = choose|k: int| 0 <= k < b.len() && b[k] == s;
        assert(both[k + a.len()] == s);
    }
}

/// The names of the APEXes of a payload: what the names of the
/// configuration stand for, and the APEXes that every payload needs, in
/// ascending order and each once. The three class paths are those of the
/// environment. Nothing comes back where a class path that the
/// configuration names has a path that stops at `/apex`.
pub fn collect_apex_names(
    apexes: &Vec<String>,
    bootclasspath: &str,
    dex2oatbootclasspath: &str,
    systemserverclasspath: &str,
) -> (names: Option<Vec<String>>)
    ensures
        match expanded(
            texts(apexes@),
            bootclasspath@,
            dex2oatbootclasspath@,
            systemserverclasspath@,
        ) {
            None => names is None,
            Some(all) => {
                &&& names matches Some(found)
                &&& strictly_sorted(texts(found@))
                &&& forall|s: Seq<char>|
                    texts(found@).contains(s) <==> (all.contains(s) || required_apexes().contains(
                        s,
                    ))
            },
        },
{
    let ghost b = bootclasspath@;
    let ghost d = dex2oatbootclasspath@;
    let ghost c = systemserverclasspath@;
    let ghost all = texts(apexes@);
    let ghost mut done: Seq<Seq<char>> = Seq::empty();
    let mut names: Vec<String> = Vec::new();
    let mut i: usize = 0;
    assert(all.subrange(0, all.len() as int) =~= all);
    assert(expanded(all, b, d, c) == prepend(done, expanded(all, b, d, c))) by {
        if expanded(all, b, d, c) is Some {
            assert(done + expanded(all, b, d, c).unwrap() =~= expanded(all, b, d, c).unwrap());
        }
    }
    while i < apexes.len()
        invariant
            i <= apexes@.len(),
            all == texts(apexes@),
            b == bootclasspath@,
            d == dex2oatbootclasspath@,
            c == systemserverclasspath@,
            strictly_sorted(texts(names@)),
            expanded(all, b, d, c) == prepend(
                done,
                expanded(all.subrange(i as int, all.len() as int), b, d, c),
            ),
            forall|s: Seq<char>| texts(names@).contains(s) <==> done.contains(s),
        decreases apexes@.len() - i,
    {
        let ghost rest = all.subrange(i as int, all.len() as int);
        proof {
            assert(rest[0] == apexes@[i as int]@);
            assert(rest.drop_first() =~= all.subrange(i + 1, all.len() as int));
        }
        let more: Vec<String> = if apexes[i] == String::from_str("{BOOTCLASSPATH}") {
            match find_apex_names_in_classpath(bootclasspath) {
                Some(found) => found,
                None => {
                    return None;
                },
            }
        } else if apexes[i] == String::from_str("{DEX2OATBOOTCLASSPATH}") {
            match find_apex_names_in_classpath(dex2oatbootclasspath) {
                Some(found) => found,
                None => {
                    return None;
                },
            }
        } else if apexes[i] == String::from_str("{SYSTEMSERVERCLASSPATH}") {
            match find_apex_names_in_classpath(systemserverclasspath) {
                Some(found) => found,
                None => {
                    return None;
                },
            }
        } else {
            let mut own: Vec<String> = Vec::new();
            own.push(apexes[i].clone());
            assert(texts(own@) =~= seq![apexes@[i as int]@]);
            own
        };
        assert(expansion(rest[0], b, d, c) == Some(texts(more@)));
        let ghost held = texts(names@);
        insert_all_sorted(&mut names, &more);
        proof {
            let next = expanded(all.subrange(i + 1, all.len() as int), b, d, c);
            let longer = done + texts(more@);
            assert(forall|s: Seq<char>|
                texts(names@).contains(s) <==> (texts(more@).contains(s) || held.contains(s)));
            if next is Some {
                assert(done + (texts(more@) + next.unwrap()) =~= longer + next.unwrap());
            }
            assert forall|s: Seq<char>| texts(names@).contains(s) <==> longer.contains(s) by {
                lemma_contains_add(done, texts(more@), s);
                assert(held.contains(s) <==> done.contains(s));
            }
            done = longer;
        }
        i = i + 1;
    }
    let ghost held = texts(names@);
    let adbd = String::from_str("com.android.adbd");
    let statsd = String::from_str("com.android.os.statsd");
    insert_sorted(&mut names, adbd);
    let ghost with_adbd = texts(names@);
    insert_sorted(&mut names, statsd);
    proof {
        let last = expanded(all.subrange(i as int, all.len() as int), b, d, c);
        assert(last == Some(Seq::<Seq<char>>::empty()));
        assert(done + Seq::<Seq<char>>::empty() =~= done);
        let required = required_apexes();
        assert(required[0] == "com.android.adbd"@ && required[1] == "com.android.os.statsd"@);
        assert forall|s: Seq<char>|
            texts(names@).contains(s) <==> (done.contains(s) || required.contains(s)) by {
            assert(held.contains(s) <==> done.contains(s));
            assert(with_adbd.contains(s) <==> (s == "com.android.adbd"@ || held.contains(s)));
            if required.contains(s) {
                let k = choose|k: int| 0 <= k < required.len() && required[k] == s;
                assert(k == 0 || k == 1);
            }
        }
    }
    Some(names)
}

} // verus!
