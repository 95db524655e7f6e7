//! The machine's disks and network, and everything that the system page shows.

use vstd::prelude::*;

use crate::hardware::sysinfo::{
    cpu_name, first_cores, first_memory, os_name, read_cpu_cores, read_cpu_max_freq,
    read_cpu_model, read_os_pretty, read_ram_total_kib,
};
use crate::number::{decimal_value, parse_u64};
use crate::order::{in_order, lemma_text_le_total, lemma_text_le_trans, name_le, text_le};
use crate::text::{lines_of, same, stands_at, starts_with, text_of, trim, trimmed};

verus! {

/// An entry of the kernel's list of block devices, with the attributes that could be read.
pub struct BlockEntry {
    pub name: String,
    pub size: Option<String>,
    pub model: Option<String>,
    pub rotational: Option<String>,
}

/// A disk.
#[derive(Debug)]
pub struct StorageDevice {
    pub name: String,
    pub model: String,
    /// Size in sectors of 512 bytes.
    pub sectors: u64,
    pub kind: &'static str,
}

/// A gibibyte in sectors: anything smaller is not listed.
pub const SECTORS_PER_GIB: u64 = 2_097_152;

/// A disk as contracts speak of it.
pub struct Disk {
    pub name: Seq<char>,
    pub model: Seq<char>,
    pub sectors: u64,
    pub kind: Seq<char>,
}

impl View for StorageDevice {
    type V = Disk;

    open spec fn view(&self) -> Disk {
        Disk { name: self.name@, model: self.model@, sectors: self.sectors, kind: self.kind@ }
    }
}

/// Whether a name is that of a disk and not of a loop device, a RAM disk or the like.
pub open spec fn is_disk_name(name: Seq<char>) -> bool {
    stands_at(name, "sd"@, 0) || stands_at(name, "nvme"@, 0) || stands_at(name, "mmcblk"@, 0)
}

/// The size an entry gives, in sectors; zero where it gives none.
pub open spec fn sectors_of(size: Option<Seq<char>>) -> u64 {
    match size {
        None => 0,
        Some(text) => match decimal_value(trimmed(text), u64::MAX as nat) {
            Some(n) => n as u64,
            None => 0,
        },
    }
}

/// What sort of disk an entry is.
pub open spec fn disk_kind(name: Seq<char>, rotational: Option<Seq<char>>) -> Seq<char> {
    if stands_at(name, "nvme"@, 0) {
        "NVMe SSD"@
    } else if rotational is Some && trimmed(rotational->0) == "0"@ {
        "SATA SSD"@
    } else {
        "HDD"@
    }
}

/// The disk that an entry stands for, if it stands for one that is listed.
pub open spec fn disk_of(entry: BlockEntry, unknown: Seq<char>) -> Option<Disk> {
    let sectors = sectors_of(text_of(entry.size));
    if !is_disk_name(entry.name@) || sectors < SECTORS_PER_GIB {
        None
    } else {
        Some(
            Disk {
                name: entry.name@,
                model: match entry.model {
                    Some(model) => trimmed(model@),
                    None => unknown,
                },
                sectors,
                kind: disk_kind(entry.name@, text_of(entry.rotational)),
            },
        )
    }
}

/// The disks among the entries, in the order of the entries.
pub open spec fn disks_of(entries: Seq<BlockEntry>, unknown: Seq<char>) -> Seq<Disk>
    decreases entries.len(),
{
    if entries.len() == 0 {
        seq![]
    } else {
        let before = disks_of(entries.drop_last(), unknown);
        match disk_of(entries.last(), unknown) {
            Some(disk) => before.push(disk),
            None => before,
        }
    }
}

/// Disks as contracts speak of them.
pub open spec fn disks_view(list: Seq<StorageDevice>) -> Seq<Disk> {
    Seq::new(list.len(), |i: int| list[i]@)
}

/// The names of disks.
pub open spec fn disk_names(list: Seq<Disk>) -> Seq<Seq<char>> {
    Seq::new(list.len(), |i: int| list[i].name)
}

fn read_disk(entry: &BlockEntry, unknown: &str) -> (r: Option<StorageDevice>)
    ensures
        match r {
            Some(device) => disk_of(*entry, unknown@) == Some(device@),
            None => disk_of(*entry, unknown@) is None,
        },
{
    let name = entry.name.as_str();
    let nvme = starts_with(name, "nvme");
    if !(starts_with(name, "sd") || nvme || starts_with(name, "mmcblk")) {
        return None;
    }
    let sectors: u64 = match &entry.size {
        None => 0,
        Some(text) => match parse_u64(trim(text.as_str()).as_str()) {
            Some(n) => n,
            None => 0,
        },
    };
    if sectors < SECTORS_PER_GIB {
        return None;
    }
    let model = match &entry.model {
        Some(model) => trim(model.as_str()),
        None => unknown.to_owned(),
    };
    let kind = if nvme {
        "NVMe SSD"
    } else {
        let still = match &entry.rotational {
            Some(text) => same(trim(text.as_str()).as_str(), "0"),
            None => false,
        };
        if still {
            "SATA SSD"
        } else {
            "HDD"
        }
    };
    Some(StorageDevice { name: entry.name.clone(), model, sectors, kind })
}

/// Puts one disk into a list that stands in order.
fn insert_disk(list: &mut Vec<StorageDevice>, device: StorageDevice)
    requires
        in_order(disk_names(disks_view(old(list)@))),
    ensures
        in_order(disk_names(disks_view(final(list)@))),
        exists|k: int|
            0 <= k <= old(list)@.len() && final(list)@ == #[trigger] old(list)@.insert(k, device),
{
    let ghost before = list@;
    let mut k: usize = 0;
    while k < list.len() && name_le(list[k].name.as_str(), device.name.as_str())
        invariant
            k <= list@.len(),
            list@ == before,
            forall|i: int| 0 <= i < k ==> text_le((#[trigger] list@[i]).name@, device.name@),
        decreases list@.len() - k,
    {
        k = k + 1;
    }
    let ghost n = device.name@;
    let ghost d = device;
    list.insert(k, device);
    proof {
        let a = disk_names(disks_view(before));
        let b = disk_names(disks_view(list@));
        assert(list@ == before.insert(k as int, d));
        assert forall|i: int, j: int| 0 <= i <= j < b.len() implies text_le(
            #[trigger] b[i],
            #[trigger] b[j],
        ) by {
            let ii = if i < k {
                i
            } else {
                i - 1
            };
            let jj = if j < k {
                j
            } else {
                j - 1
            };
            lemma_text_le_total(n, n);
            if i != k && j != k {
                assert(b[i] == a[ii]);
                assert(b[j] == a[jj]);
            } else if i == k && j != k {
                assert(b[j] == a[jj]);
                assert(text_le(a[k as int], a[jj]));
                lemma_text_le_total(before[k as int].name@, n);
                assert(!text_le(before[k as int].name@, n));
                lemma_text_le_trans(n, a[k as int], a[jj]);
            } else if i != k && j == k {
                assert(b[i] == before[i].name@);
            }
        }
    }
}

/// The machine's disks by name, from the kernel's list of block devices; `unknown` stands
/// for a model that cannot be read.
pub fn read_storage(entries: &Vec<BlockEntry>, unknown: &str) -> (r: Vec<StorageDevice>)
    ensures
        in_order(disk_names(disks_view(r@))),
        disks_view(r@).to_multiset() == disks_of(entries@, unknown@).to_multiset(),
{
    let mut out: Vec<StorageDevice> = Vec::new();
    let mut i: usize = 0;
    assert(entries@.take(0) =~= seq![]);
    assert(disks_view(out@) =~= seq![]);
    while i < entries.len()
        invariant
            i <= entries@.len(),
            in_order(disk_names(disks_view(out@))),
            disks_view(out@).to_multiset() == disks_of(
                entries@.take(i as int),
                unknown@,
            ).to_multiset(),
        decreases entries@.len() - i,
    {
        let ghost before = out@;
        let ghost so_far = disks_of(entries@.take(i as int), unknown@);
        assert(entries@.take(i + 1).drop_last() =~= entries@.take(i as int));
        assert(entries@.take(i + 1).last() == entries@[i as int]);
        match read_disk(&entries[i], unknown) {
            Some(device) => {
                let ghost d = device;
                insert_disk(&mut out, device);
                proof {
                    let k = choose|k: int|
                        0 <= k <= before.len() && out@ == #[trigger] before.insert(k, d);
                    vstd::seq_lib::to_multiset_insert(disks_view(before), k, d@);
                    assert(disks_view(out@) =~= disks_view(before).insert(k, d@));
                    so_far.to_multiset_ensures();
                }
            },
            None => {},
        }
        i = i + 1;
    }
    assert(entries@.take(i as int) =~= entries@);
    out
}

/// A network interface, its state and its address, where those could be read.
pub struct NetEntry {
    pub name: String,
    pub operstate: Option<String>,
    pub address: Option<String>,
}

/// Whether a name is that of a wireless interface.
pub open spec fn is_wireless(name: Seq<char>) -> bool {
    stands_at(name, "wlp"@, 0) || stands_at(name, "wlan"@, 0)
}

/// Whether a name is that of a wired interface.
pub open spec fn is_wired(name: Seq<char>) -> bool {
    stands_at(name, "enp"@, 0) || stands_at(name, "eth"@, 0)
}

/// Whether an interface is up.
pub open spec fn is_up(entry: NetEntry) -> bool {
    entry.operstate is Some && trimmed(entry.operstate->0@) == "up"@
}

/// The first interface that is up, among the wireless or the wired ones.
pub open spec fn first_up(entries: Seq<NetEntry>, wireless: bool) -> Option<Seq<char>>
    decreases entries.len(),
{
    if entries.len() == 0 {
        None
    } else if is_up(entries[0]) && (if wireless {
        is_wireless(entries[0].name@)
    } else {
        is_wired(entries[0].name@)
    }) {
        Some(entries[0].name@)
    } else {
        first_up(entries.drop_first(), wireless)
    }
}

fn find_up(entries: &Vec<NetEntry>, wireless: bool) -> (r: Option<String>)
    ensures
        text_of(r) == first_up(entries@, wireless),
{
    let mut i: usize = 0;
    assert(entries@.skip(0) =~= entries@);
    while i < entries.len()
        invariant
            i <= entries@.len(),
            first_up(entries@, wireless) == first_up(entries@.skip(i as int), wireless),
        decreases entries@.len() - i,
    {
        assert(entries@.skip(i as int)[0] == entries@[i as int]);
        assert(entries@.skip(i as int).drop_first() =~= entries@.skip(i + 1));
        let name = entries[i].name.as_str();
        let fits = if wireless {
            starts_with(name, "wlp") || starts_with(name, "wlan")
        } else {
            starts_with(name, "enp") || starts_with(name, "eth")
        };
        let up = match &entries[i].operstate {
            Some(state) => same(trim(state.as_str()).as_str(), "up"),
            None => false,
        };
        if up && fits {
            return Some(entries[i].name.clone());
        }
        i = i + 1;
    }
    None
}

/// The interface in use: the first wireless one that is up, else the first wired one.
pub open spec fn interface_in_use(entries: Seq<NetEntry>) -> Option<Seq<char>> {
    match first_up(entries, true) {
        Some(name) => Some(name),
        None => first_up(entries, false),
    }
}

/// The interface in use: the first wireless one that is up, else the first wired one.
pub fn active_net_interface(entries: &Vec<NetEntry>) -> (r: Option<String>)
    ensures
        text_of(r) == interface_in_use(entries@),
{
    match find_up(entries, true) {
        Some(name) => Some(name),
        None => find_up(entries, false),
    }
}

/// The address of an interface: that of the first entry with its name.
pub open spec fn address_of(entries: Seq<NetEntry>, name: Seq<char>) -> Option<Seq<char>>
    decreases entries.len(),
{
    if entries.len() == 0 {
        None
    } else if entries[0].name@ == name {
        text_of(entries[0].address)
    } else {
        address_of(entries.drop_first(), name)
    }
}

fn find_address(entries: &Vec<NetEntry>, name: &str) -> (r: Option<String>)
    ensures
        text_of(r) == address_of(entries@, name@),
{
    let mut i: usize = 0;
    assert(entries@.skip(0) =~= entries@);
    while i < entries.len()
        invariant
            i <= entries@.len(),
            address_of(entries@, name@) == address_of(entries@.skip(i as int), name@),
        decreases entries@.len() - i,
    {
        assert(entries@.skip(i as int)[0] == entries@[i as int]);
        assert(entries@.skip(i as int).drop_first() =~= entries@.skip(i + 1));
        if same(entries[i].name.as_str(), name) {
            return match &entries[i].address {
                Some(address) => Some(address.clone()),
                None => None,
            };
        }
        i = i + 1;
    }
    None
}

/// What sort of network an interface is on.
pub open spec fn network_kind(name: Seq<char>) -> Seq<char> {
    if stands_at(name, "wl"@, 0) {
        "Wi-Fi"@
    } else if stands_at(name, "en"@, 0) || stands_at(name, "eth"@, 0) {
        "Ethernet"@
    } else {
        "Outra"@
    }
}

fn network_type(name: &str) -> (r: &'static str)
    ensures
        r@ == network_kind(name@),
{
    if starts_with(name, "wl") {
        "Wi-Fi"
    } else if starts_with(name, "en") || starts_with(name, "eth") {
        "Ethernet"
    } else {
        "Outra"
    }
}

/// What was read off the machine; `None` where something could not be read.
pub struct Readings {
    pub product_name: Option<String>,
    pub vendor: Option<String>,
    pub bios_version: Option<String>,
    pub kernel: Option<String>,
    pub os_release: Option<String>,
    pub cpuinfo: Option<String>,
    pub cpu_threads: u32,
    pub cpu_max_freq: Option<String>,
    pub meminfo: Option<String>,
    /// The discrete graphics card's name, empty where there is none.
    pub gpu_name: String,
    pub gpu_driver: String,
    /// The name of the card that drives the display.
    pub display_name: Option<String>,
    pub blocks: Vec<BlockEntry>,
    pub interfaces: Vec<NetEntry>,
}

/// What the system page shows.
#[derive(Debug)]
pub struct SystemInfo {
    pub product_name: String,
    pub vendor: String,
    pub bios_version: String,
    pub os_pretty: String,
    pub kernel: String,
    pub cpu_model: String,
    pub cpu_cores: u32,
    pub cpu_threads: u32,
    pub cpu_max_freq_mhz: u32,
    pub gpu_name: String,
    /// Filled in later: it takes a live query of the driver.
    pub gpu_vram_mb: u32,
    pub gpu_driver: String,
    pub ram_total_kib: u64,
    /// Not to be had without privileges.
    pub ram_type: String,
    pub storage: Vec<StorageDevice>,
    pub net_interface: String,
    pub net_mac: String,
    pub net_type: String,
}

/// A reading without the white space around it, or what stands for it where there is none.
pub open spec fn reading_or(text: Option<Seq<char>>, other: Seq<char>) -> Seq<char> {
    match text {
        Some(text) => trimmed(text),
        None => other,
    }
}

fn trimmed_or(text: &Option<String>, other: &str) -> (r: String)
    ensures
        r@ == reading_or(text_of(*text), other@),
{
    match text {
        Some(text) => trim(text.as_str()),
        None => other.to_owned(),
    }
}

/// The name shown for the graphics card.
pub open spec fn shown_gpu(readings: Readings, unknown: Seq<char>) -> Seq<char> {
    if readings.gpu_name@.len() > 0 {
        readings.gpu_name@
    } else {
        match readings.display_name {
            Some(name) => name@,
            None => unknown,
        }
    }
}

impl SystemInfo {
    /// Whether this shows what was read.
    pub open spec fn shows(self, readings: Readings, unknown: Seq<char>) -> bool {
        &&& self.product_name@ == reading_or(text_of(readings.product_name), "Unknown"@)
        &&& self.vendor@ == reading_or(text_of(readings.vendor), "Unknown"@)
        &&& self.bios_version@ == reading_or(text_of(readings.bios_version), ""@)
        &&& self.kernel@ == reading_or(text_of(readings.kernel), ""@)
        &&& self.os_pretty@ == os_name(text_of(readings.os_release))
        &&& self.cpu_model@ == cpu_name(text_of(readings.cpuinfo))
        &&& self.cpu_cores == (match readings.cpuinfo {
            Some(text) => first_cores(lines_of(text@)),
            None => 0,
        })
        &&& self.cpu_threads == readings.cpu_threads
        &&& self.cpu_max_freq_mhz == (match readings.cpu_max_freq {
            Some(text) => match decimal_value(trimmed(text@), u32::MAX as nat) {
                Some(n) => n / 1000,
                None => 0,
            },
            None => 0,
        })
        &&& self.gpu_name@ == shown_gpu(readings, unknown)
        &&& self.gpu_vram_mb == 0
        &&& self.gpu_driver@ == readings.gpu_driver@
        &&& self.ram_total_kib == (match readings.meminfo {
            Some(text) => first_memory(lines_of(text@)),
            None => 0,
        })
        &&& self.ram_type@ == ""@
        &&& in_order(disk_names(disks_view(self.storage@)))
        &&& disks_view(self.storage@).to_multiset() == disks_of(
            readings.blocks@,
            unknown,
        ).to_multiset()
        &&& self.net_interface@ == (match interface_in_use(readings.interfaces@) {
            Some(name) => name,
            None => ""@,
        })
        &&& self.net_mac@ == (if self.net_interface@.len() == 0 {
            ""@
        } else {
            reading_or(address_of(readings.interfaces@, self.net_interface@), ""@)
        })
        &&& self.net_type@ == (if self.net_interface@.len() == 0 {
            ""@
        } else {
            network_kind(self.net_interface@)
        })
    }

    /// Adds what is known of the network: the interface's address as it was read, and what
    /// sort of network it is on. Without an interface there is nothing to add.
    pub fn enrich_network(&mut self, address: &Option<String>)
        ensures
            *final(self) == (SystemInfo {
                net_mac: final(self).net_mac,
                net_type: final(self).net_type,
                ..*old(self)
            }),
            old(self).net_interface@.len() == 0 ==> *final(self) == *old(self),
            old(self).net_interface@.len() > 0 ==> {
                &&& final(self).net_mac@ == reading_or(text_of(*address), ""@)
                &&& final(self).net_type@ == network_kind(old(self).net_interface@)
            },
    {
        if same(self.net_interface.as_str(), "") {
            proof {
                reveal_strlit("");
            }
            return;
        }
        proof {
            reveal_strlit("");
            assert(self.net_interface@.len() == 0 ==> self.net_interface@ =~= ""@);
        }
        self.net_mac = trimmed_or(address, "");
        self.net_type = network_type(self.net_interface.as_str()).to_owned();
    }
}

/// What the system page shows; `unknown` stands for a name that cannot be read.
pub fn read_system_info(readings: &Readings, unknown: &str) -> (r: SystemInfo)
    ensures
        r.shows(*readings, unknown@),
{
    let gpu_name = if same(readings.gpu_name.as_str(), "") {
        proof {
            reveal_strlit("");
        }
        match &readings.display_name {
            Some(name) => name.clone(),
            None => unknown.to_owned(),
        }
    } else {
        proof {
            reveal_strlit("");
            assert(readings.gpu_name@.len() == 0 ==> readings.gpu_name@ =~= ""@);
        }
        readings.gpu_name.clone()
    };
    let net_interface = match active_net_interface(&readings.interfaces) {
        Some(name) => name,
        None => "".to_owned(),
    };
    let address = find_address(&readings.interfaces, net_interface.as_str());
    let mut info = SystemInfo {
        product_name: trimmed_or(&readings.product_name, "Unknown"),
        vendor: trimmed_or(&readings.vendor, "Unknown"),
        bios_version: trimmed_or(&readings.bios_version, ""),
        os_pretty: read_os_pretty(&readings.os_release),
        kernel: trimmed_or(&readings.kernel, ""),
        cpu_model: read_cpu_model(&readings.cpuinfo),
        cpu_cores: read_cpu_cores(&readings.cpuinfo),
        cpu_threads: readings.cpu_threads,
        cpu_max_freq_mhz: read_cpu_max_freq(&readings.cpu_max_freq),
        gpu_name,
        gpu_vram_mb: 0,
        gpu_driver: readings.gpu_driver.clone(),
        ram_total_kib: read_ram_total_kib(&readings.meminfo),
        ram_type: "".to_owned(),
        storage: read_storage(&readings.blocks, unknown),
        net_interface,
        net_mac: "".to_owned(),
        net_type: "".to_owned(),
    };
    proof {
        reveal_strlit("");
    }
    info.enrich_network(&address);
    info
}

/// A block device is listed where its name is a disk's and it holds a gibibyte or more; its
/// size is what it gives, and its name and model are its own.
pub proof fn law_disks_are_listed_from_a_gibibyte(
    entry: BlockEntry,
    unknown: Seq<char>,
    sectors: u64,
)
    requires
        entry.size is Some,
        entry.size->0@ == crate::number::decimal_text(sectors as nat).push('\n'),
        stands_at(entry.name@, "sd"@, 0) || stands_at(entry.name@, "nvme"@, 0) || stands_at(
            entry.name@,
            "mmcblk"@,
            0,
        ),
    ensures
        disk_of(entry, unknown) is Some <==> sectors * 512 >= 1024 * 1024 * 1024,
        disk_of(entry, unknown) is Some ==> {
            let disk = disk_of(entry, unknown)->0;
            &&& disk.name == entry.name@
            &&& disk.sectors == sectors
            &&& entry.model is Some ==> disk.model == trimmed(entry.model->0@)
            &&& entry.model is None ==> disk.model == unknown
        },
{
    let digits = crate::number::decimal_text(sectors as nat);
    crate::number::lemma_decimal_text(sectors as nat);
    crate::number::lemma_digits_not_space(digits, 10);
    crate::number::law_decimal_round_trip(sectors as nat, u64::MAX as nat);
    crate::text::lemma_trimmed_line(digits);
}

/// What is no disk by its name, or gives no size, is not listed.
pub proof fn law_other_block_devices_are_not_listed(entry: BlockEntry, unknown: Seq<char>)
    requires
        entry.size is None || !(stands_at(entry.name@, "sd"@, 0) || stands_at(
            entry.name@,
            "nvme"@,
            0,
        ) || stands_at(entry.name@, "mmcblk"@, 0)),
    ensures
        disk_of(entry, unknown) is None,
{
}

/// A disk is told by its bus first, and then by whether it turns.
pub proof fn law_kinds_of_disks(name: Seq<char>, rotational: Option<Seq<char>>)
    ensures
        stands_at(name, "nvme"@, 0) ==> disk_kind(name, rotational) == "NVMe SSD"@,
        !stands_at(name, "nvme"@, 0) && rotational is Some && trimmed(rotational->0) == "0"@
            ==> disk_kind(name, rotational) == "SATA SSD"@,
        !stands_at(name, "nvme"@, 0) && (rotational is None || trimmed(rotational->0) != "0"@)
            ==> disk_kind(name, rotational) == "HDD"@,
{
}

/// Every entry that stands for a disk is listed, in turn, and nothing else is.
pub proof fn law_disks_are_those_of_the_entries(
    entries: Seq<BlockEntry>,
    entry: BlockEntry,
    unknown: Seq<char>,
)
    ensures
        disk_of(entry, unknown) is Some ==> disks_of(entries.push(entry), unknown) == disks_of(
            entries,
            unknown,
        ).push(disk_of(entry, unknown)->0),
        disk_of(entry, unknown) is None ==> disks_of(entries.push(entry), unknown) == disks_of(
            entries,
            unknown,
        ),
        disks_of(seq![], unknown) == Seq::<Disk>::empty(),
{
    assert(entries.push(entry).drop_last() =~= entries);
}

/// The first interface that is up and of that sort: it is in the list, up, and none before it
/// is both.
pub proof fn law_first_interface_that_is_up(entries: Seq<NetEntry>, wireless: bool) -> (i: int)
    ensures
        match first_up(entries, wireless) {
            Some(name) => 0 <= i < entries.len() && entries[i].name@ == name
                && entries[i].operstate is Some && trimmed(entries[i].operstate->0@) == "up"@ && (
            wireless ==> stands_at(name, "wlp"@, 0) || stands_at(name, "wlan"@, 0)) && (!wireless
                ==> stands_at(name, "enp"@, 0) || stands_at(name, "eth"@, 0)),
            None => i == entries.len(),
        },
        forall|k: int|
            0 <= k < i ==> (#[trigger] entries[k]).operstate is None || trimmed(
                entries[k].operstate->0@,
            ) != "up"@ || (if wireless {
                !stands_at(entries[k].name@, "wlp"@, 0) && !stands_at(
                    entries[k].name@,
                    "wlan"@,
                    0,
                )
            } else {
                !stands_at(entries[k].name@, "enp"@, 0) && !stands_at(entries[k].name@, "eth"@, 0)
            }),
    decreases entries.len(),
{
    if entries.len() == 0 {
        0
    } else if is_up(entries[0]) && (if wireless {
        is_wireless(entries[0].name@)
    } else {
        is_wired(entries[0].name@)
    }) {
        0
    } else {
        let rest = entries.drop_first();
        let k = law_first_interface_that_is_up(rest, wireless);
        assert(forall|m: int| 0 <= m < rest.len() ==> rest[m] == #[trigger] entries[m + 1]);
        assert forall|m: int| 0 < m < entries.len() implies #[trigger] entries[m] == rest[m - 1] by {}
        k + 1
    }
}

/// A wireless interface that is up is preferred to a wired one.
pub proof fn law_wireless_is_preferred(entries: Seq<NetEntry>)
    ensures
        first_up(entries, true) is Some ==> interface_in_use(entries) == first_up(entries, true),
        first_up(entries, true) is None ==> interface_in_use(entries) == first_up(entries, false),
{
}

/// An interface's address is that of the first entry of its name.
pub proof fn law_address_is_the_interfaces_own(entries: Seq<NetEntry>, i: int)
    requires
        0 <= i < entries.len(),
        forall|k: int| 0 <= k < i ==> (#[trigger] entries[k]).name@ != entries[i].name@,
    ensures
        entries[i].address is Some ==> address_of(entries, entries[i].name@) == Some(
            entries[i].address->0@,
        ),
        entries[i].address is None ==> address_of(entries, entries[i].name@) is None,
    decreases entries.len(),
{
    if i > 0 {
        let rest = entries.drop_first();
        assert(entries[0].name@ != entries[i].name@);
        assert(rest[i - 1] == entries[i]);
        assert forall|k: int| 0 <= k < i - 1 implies (#[trigger] rest[k]).name@ != rest[i - 1].name@ by {
            assert(rest[k] == entries[k + 1]);
        }
        law_address_is_the_interfaces_own(rest, i - 1);
    }
}

/// What sort of network an interface is on goes by how its name begins.
pub proof fn law_networks_are_told_by_the_interface(name: Seq<char>)
    ensures
        stands_at(name, "wl"@, 0) ==> network_kind(name) == "Wi-Fi"@,
        !stands_at(name, "wl"@, 0) && (stands_at(name, "en"@, 0) || stands_at(name, "eth"@, 0))
            ==> network_kind(name) == "Ethernet"@,
        !stands_at(name, "wl"@, 0) && !stands_at(name, "en"@, 0) && !stands_at(name, "eth"@, 0)
            ==> network_kind(name) == "Outra"@,
{
}

/// The system page shows each reading in its own place, without the white space around it.
pub proof fn law_page_shows_each_reading(info: SystemInfo, readings: Readings, unknown: Seq<char>)
    requires
        info.shows(readings, unknown),
    ensures
        readings.product_name is Some ==> info.product_name@ == trimmed(readings.product_name->0@),
        readings.product_name is None ==> info.product_name@ == "Unknown"@,
        readings.vendor is Some ==> info.vendor@ == trimmed(readings.vendor->0@),
        readings.vendor is None ==> info.vendor@ == "Unknown"@,
        readings.bios_version is Some ==> info.bios_version@ == trimmed(readings.bios_version->0@),
        readings.kernel is Some ==> info.kernel@ == trimmed(readings.kernel->0@),
        readings.cpu_threads == info.cpu_threads,
        readings.gpu_driver@ == info.gpu_driver@,
        readings.gpu_name@.len() > 0 ==> info.gpu_name@ == readings.gpu_name@,
        readings.gpu_name@.len() == 0 && readings.display_name is Some ==> info.gpu_name@
            == readings.display_name->0@,
        readings.gpu_name@.len() == 0 && readings.display_name is None ==> info.gpu_name@
            == unknown,
        readings.cpuinfo is Some ==> info.cpu_model@ == cpu_name(Some(readings.cpuinfo->0@))
            && info.cpu_cores == first_cores(lines_of(readings.cpuinfo->0@)),
        readings.meminfo is Some ==> info.ram_total_kib == first_memory(
            lines_of(readings.meminfo->0@),
        ),
        readings.os_release is Some ==> info.os_pretty@ == os_name(Some(readings.os_release->0@)),
        interface_in_use(readings.interfaces@) is Some ==> info.net_interface@ == interface_in_use(
            readings.interfaces@,
        )->0,
{
}

/// A disk is seen as it is.
pub proof fn law_disks_are_seen_as_they_are(list: Seq<StorageDevice>, i: int)
    requires
        0 <= i < list.len(),
    ensures
        disks_view(list).len() == list.len(),
        disks_view(list)[i].name == list[i].name@,
        disks_view(list)[i].model == list[i].model@,
        disks_view(list)[i].sectors == list[i].sectors,
        disks_view(list)[i].kind == list[i].kind@,
        disk_names(disks_view(list))[i] == list[i].name@,
{
}

} // verus!
