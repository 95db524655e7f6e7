//! What the dashboard says of the machine.

use vstd::prelude::*;

use crate::hardware::machine::StorageDevice;
use crate::number::{decimal, decimal_text};
use crate::text::{
    cat2, cat3, chars_of, contains, join, joined, lowercase, occurs, same, string_between, texts,
    trim, trimmed,
};

verus! {

/// `n / unit` to the nearest whole number; halfway between two it is the even one.
pub open spec fn nearest_even(n: nat, unit: nat) -> nat {
    let below = n / unit;
    let over = n % unit;
    if 2 * over > unit || (2 * over == unit && below % 2 == 1) {
        below + 1
    } else {
        below
    }
}

fn rounded(n: u64, unit: u64) -> (r: u64)
    requires
        2 <= unit <= 0x1_0000_0000,
    ensures
        r == nearest_even(n as nat, unit as nat),
{
    let below: u64 = n / unit;
    let over: u64 = n % unit;
    assert(below <= n / 2) by (nonlinear_arith)
        requires
            below == n / unit,
            unit >= 2,
    ;
    if 2 * over > unit || (2 * over == unit && below % 2 == 1) {
        below + 1
    } else {
        below
    }
}

/// What is said of a graphics card besides its name.
pub open spec fn gpu_facts(vram_mb: u32, driver: Seq<char>, status: Option<Seq<char>>) -> Seq<
    Seq<char>,
> {
    let vram = if vram_mb > 0 {
        seq![decimal_text(nearest_even(vram_mb as nat, 1024)) + " GB VRAM"@]
    } else {
        seq![]
    };
    let with_driver = if driver.len() > 0 {
        vram.push("Driver "@ + driver)
    } else {
        vram
    };
    match status {
        Some(text) => with_driver.push(text),
        None => with_driver,
    }
}

/// The lines that describe a graphics card.
pub open spec fn gpu_text(
    name: Seq<char>,
    vram_mb: u32,
    driver: Seq<char>,
    status: Option<Seq<char>>,
) -> Seq<char> {
    let facts = gpu_facts(vram_mb, driver, status);
    if facts.len() == 0 {
        name
    } else {
        name + "\n"@ + joined(facts, " · "@)
    }
}

fn is_empty(s: &str) -> (r: bool)
    ensures
        r == (s@.len() == 0),
{
    chars_of(s).len() == 0
}

/// The lines that describe a graphics card: its name, and below it the memory, the driver and
/// the state of its live data, as far as there is anything to say.
pub fn format_gpu_detail(name: &str, vram_mb: u32, driver: &str, status: Option<&str>) -> (r:
    String)
    ensures
        r@ == gpu_text(
            name@,
            vram_mb,
            driver@,
            match status {
                Some(text) => Some(text@),
                None => None,
            },
        ),
{
    let ghost shown = match status {
        Some(text) => Some(text@),
        None => None,
    };
    let mut facts: Vec<String> = Vec::new();
    let ghost mut said: Seq<Seq<char>> = seq![];
    assert(texts(facts@) =~= said);
    if vram_mb > 0 {
        let number = decimal(rounded(vram_mb as u64, 1024));
        let fact = cat2(number.as_str(), " GB VRAM");
        proof {
            said = said.push(fact@);
        }
        facts.push(fact);
        assert(texts(facts@) =~= said);
    }
    if !is_empty(driver) {
        let fact = cat2("Driver ", driver);
        proof {
            said = said.push(fact@);
        }
        facts.push(fact);
        assert(texts(facts@) =~= said);
    }
    if let Some(text) = status {
        proof {
            said = said.push(text@);
        }
        facts.push(text.to_owned());
        assert(texts(facts@) =~= said);
    }
    assert(said =~= gpu_facts(vram_mb, driver@, shown));
    if facts.len() == 0 {
        name.to_owned()
    } else {
        cat3(name, "\n", join(&facts, " · ").as_str())
    }
}

/// How far the live data of a graphics card has come.
#[derive(Debug, Clone, Copy, PartialEq, Eq, Structural)]
pub enum GpuLiveState {
    Static,
    Loading,
    Live,
    Unavailable,
}

pub const GPU_LOADING: &'static str = "gpu_loading_live";

pub const GPU_SUSPENDED: &'static str = "gpu_suspended_static";

pub const GPU_UNAVAILABLE: &'static str = "gpu_live_unavailable";

/// What is shown of a card before its live data: it is about to be read, unless reading it
/// would wake the card.
pub open spec fn waiting_note(safe: bool) -> Seq<char> {
    if safe {
        GPU_LOADING@
    } else {
        GPU_SUSPENDED@
    }
}

/// What is shown of a card when the page opens.
pub fn initial_gpu_status(nvidia_available: bool, safe: bool) -> (r: Option<&'static str>)
    ensures
        r is Some == nvidia_available,
        r is Some ==> r->0@ == waiting_note(safe),
        nvidia_available && safe ==> r is Some && r->0@ == "gpu_loading_live"@,
        nvidia_available && !safe ==> r is Some && r->0@ == "gpu_suspended_static"@,
{
    if !nvidia_available {
        None
    } else if safe {
        Some(GPU_LOADING)
    } else {
        Some(GPU_SUSPENDED)
    }
}

/// What is shown of a card's live data on a refresh; nothing while it is live.
pub fn gpu_status(live: bool, state: GpuLiveState, safe: bool) -> (r: Option<&'static str>)
    ensures
        r is Some == !live,
        r is Some ==> r->0@ == (match state {
            GpuLiveState::Loading => GPU_LOADING@,
            GpuLiveState::Unavailable => GPU_UNAVAILABLE@,
            GpuLiveState::Static => waiting_note(safe),
            GpuLiveState::Live => GPU_UNAVAILABLE@,
        }),
        live ==> r is None,
        !live && state is Loading ==> r is Some && r->0@ == "gpu_loading_live"@,
        !live && (state is Unavailable || state is Live) ==> r is Some && r->0@
            == "gpu_live_unavailable"@,
        !live && state is Static && safe ==> r is Some && r->0@ == "gpu_loading_live"@,
        !live && state is Static && !safe ==> r is Some && r->0@ == "gpu_suspended_static"@,
{
    if live {
        return None;
    }
    Some(
        match state {
            GpuLiveState::Loading => GPU_LOADING,
            GpuLiveState::Unavailable => GPU_UNAVAILABLE,
            GpuLiveState::Static => if safe {
                GPU_LOADING
            } else {
                GPU_SUSPENDED
            },
            GpuLiveState::Live => GPU_UNAVAILABLE,
        },
    )
}

/// Memory in whole gigabytes.
pub open spec fn ram_gb(kib: u64) -> nat {
    nearest_even(kib as nat, 1_048_576)
}

/// The parts of the one-line summary.
pub open spec fn summary_parts(
    cores: Option<Seq<char>>,
    ram_kib: u64,
    gpu_name: Seq<char>,
    unknown: Seq<char>,
) -> Seq<Seq<char>> {
    let first = match cores {
        Some(text) => seq![text],
        None => seq![],
    };
    let second = if ram_kib > 0 {
        first.push(decimal_text(ram_gb(ram_kib)) + " GB RAM"@)
    } else {
        first
    };
    if gpu_name.len() > 0 && gpu_name != unknown {
        second.push(gpu_name)
    } else {
        second
    }
}

/// The one-line summary of the machine; `cores_label` is shown where the number of cores is
/// known.
pub fn build_short_summary(
    cpu_cores: u32,
    cores_label: &str,
    ram_kib: u64,
    gpu_name: &str,
    unknown: &str,
) -> (r: String)
    ensures
        r@ == joined(
            summary_parts(
                if cpu_cores > 0 {
                    Some(cores_label@)
                } else {
                    None
                },
                ram_kib,
                gpu_name@,
                unknown@,
            ),
            " · "@,
        ),
{
    let mut parts: Vec<String> = Vec::new();
    let ghost mut said: Seq<Seq<char>> = seq![];
    assert(texts(parts@) =~= said);
    if cpu_cores > 0 {
        proof {
            said = said.push(cores_label@);
        }
        parts.push(cores_label.to_owned());
        assert(texts(parts@) =~= said);
    }
    if ram_kib > 0 {
        let number = decimal(rounded(ram_kib, 1_048_576));
        let part = cat2(number.as_str(), " GB RAM");
        proof {
            said = said.push(part@);
        }
        parts.push(part);
        assert(texts(parts@) =~= said);
    }
    if !is_empty(gpu_name) && !same(gpu_name, unknown) {
        proof {
            said = said.push(gpu_name@);
        }
        parts.push(gpu_name.to_owned());
        assert(texts(parts@) =~= said);
    }
    proof {
        let cores: Option<Seq<char>> = if cpu_cores > 0 {
            Some(cores_label@)
        } else {
            None
        };
        assert(said =~= summary_parts(cores, ram_kib, gpu_name@, unknown@));
    }
    join(&parts, " · ")
}

/// The line on the machine's memory.
pub fn ram_detail(ram_kib: u64, ram_type: &str) -> (r: String)
    ensures
        r@ == (if ram_kib == 0 {
            "—"@
        } else if ram_type@.len() == 0 {
            decimal_text(ram_gb(ram_kib)) + " GB total"@
        } else {
            decimal_text(ram_gb(ram_kib)) + " GB · "@ + ram_type@
        }),
        ram_kib == 0 ==> r@ == "—"@,
        ram_kib > 0 && ram_type@.len() == 0 ==> r@ == decimal_text(ram_gb(ram_kib)) + " GB total"@,
{
    if ram_kib == 0 {
        return "—".to_owned();
    }
    let number = decimal(rounded(ram_kib, 1_048_576));
    if is_empty(ram_type) {
        cat2(number.as_str(), " GB total")
    } else {
        cat3(number.as_str(), " GB · ", ram_type)
    }
}

/// The line on one disk.
pub open spec fn disk_line(device: StorageDevice) -> Seq<char> {
    trimmed(device.model@) + " · "@ + decimal_text(nearest_even(device.sectors as nat, 2_097_152))
        + " GB · "@ + device.kind@
}

/// The lines on the disks: the first two, and how many more there are.
pub open spec fn storage_lines(storage: Seq<StorageDevice>) -> Seq<Seq<char>> {
    if storage.len() == 1 {
        seq![disk_line(storage[0])]
    } else if storage.len() == 2 {
        seq![disk_line(storage[0]), disk_line(storage[1])]
    } else {
        seq![
            disk_line(storage[0]),
            disk_line(storage[1]),
            "+"@ + decimal_text((storage.len() - 2) as nat) + " ..."@,
        ]
    }
}

fn describe_disk(device: &StorageDevice) -> (r: String)
    ensures
        r@ == disk_line(*device),
{
    let number = decimal(rounded(device.sectors, 2_097_152));
    let model = trim(device.model.as_str());
    let head = cat3(model.as_str(), " · ", number.as_str());
    cat3(head.as_str(), " GB · ", device.kind)
}

/// The lines on the disks: the first two, and how many more there are, so that a machine with
/// many disks does not stretch the page.
pub fn storage_detail(storage: &Vec<StorageDevice>) -> (r: String)
    ensures
        r@ == (if storage@.len() == 0 {
            "—"@
        } else {
            joined(storage_lines(storage@), "\n"@)
        }),
{
    let n: usize = storage.len();
    if n == 0 {
        return "—".to_owned();
    }
    let mut lines: Vec<String> = Vec::new();
    lines.push(describe_disk(&storage[0]));
    if n >= 2 {
        lines.push(describe_disk(&storage[1]));
    }
    if n > 2 {
        let more = decimal((n - 2) as u64);
        lines.push(cat3("+", more.as_str(), " ..."));
    }
    assert(texts(lines@) =~= storage_lines(storage@));
    join(&lines, "\n")
}

/// The lines on the network.
pub fn net_detail(
    net_type: &str,
    interface: &str,
    mac: &str,
    ip_label: &str,
    ip: &Option<String>,
    no_interface: &str,
) -> (r: String)
    ensures
        r@ == (if interface@.len() == 0 {
            no_interface@
        } else {
            net_type@ + " · "@ + interface@ + "\n"@ + mac@ + "\n"@ + ip_label@ + " "@ + (match ip {
                Some(address) => address@,
                None => "--"@,
            })
        }),
        interface@.len() == 0 ==> r@ == no_interface@,
{
    if is_empty(interface) {
        return no_interface.to_owned();
    }
    let mut out = cat3(net_type, " · ", interface);
    out.append("\n");
    out.append(mac);
    out.append("\n");
    out.append(ip_label);
    out.append(" ");
    match ip {
        Some(address) => {
            out.append(address.as_str());
        },
        None => {
            out.append("--");
        },
    }
    out
}

/// The lines on the operating system.
pub fn os_detail(os_pretty: &str, kernel: &str) -> (r: String)
    ensures
        r@ == os_pretty@ + "\nKernel "@ + kernel@,
{
    cat3(os_pretty, "\nKernel ", kernel)
}

/// The line on the firmware.
pub fn bios_detail(version: &str) -> (r: String)
    ensures
        r@ == (if version@.len() == 0 {
            "—"@
        } else {
            "BIOS "@ + version@
        }),
        version@.len() == 0 ==> r@ == "—"@,
        version@.len() > 0 ==> r@ == "BIOS "@ + version@,
{
    if is_empty(version) {
        "—".to_owned()
    } else {
        cat2("BIOS ", version)
    }
}

/// A file name up to its last dot, if it has one.
pub open spec fn stem_of(file: Seq<char>) -> Option<Seq<char>>
    decreases file.len(),
{
    if file.len() == 0 {
        None
    } else if file.last() == '.' {
        Some(file.drop_last())
    } else {
        stem_of(file.drop_last())
    }
}

fn stem(file: &str) -> (r: Option<String>)
    ensures
        match r {
            Some(s) => stem_of(file@) == Some(s@),
            None => stem_of(file@) is None,
        },
{
    let v = chars_of(file);
    let mut n: usize = v.len();
    assert(v@.take(n as int) =~= v@);
    while n > 0
        invariant
            n <= v@.len(),
            v@ == file@,
            stem_of(file@) == stem_of(v@.take(n as int)),
        decreases n,
    {
        assert(v@.take(n as int).last() == v@[n - 1]);
        assert(v@.take(n as int).drop_last() =~= v@.take(n - 1));
        if v[n - 1] == '.' {
            assert(v@.subrange(0, n - 1) =~= v@.take(n - 1));
            return Some(string_between(&v, 0, n - 1));
        }
        n = n - 1;
    }
    None
}

/// Whether a photo is of this product: whether the product's name holds the photo's, in
/// capitals or not.
pub open spec fn shows_product(file: Seq<char>, product: Seq<char>) -> bool {
    match stem_of(file) {
        Some(code) => occurs(lowercase(product), lowercase(code)),
        None => false,
    }
}

/// The photo of this product among the files of the photo directory: the first that is named
/// after its model.
pub fn find_model_photo(product_name: &str, files: &Vec<String>) -> (r: Option<usize>)
    ensures
        match r {
            Some(i) => i < files@.len() && shows_product(files@[i as int]@, product_name@)
                && forall|k: int|
                0 <= k < i ==> !shows_product((#[trigger] files@[k])@, product_name@),
            None => forall|k: int|
                0 <= k < files@.len() ==> !shows_product((#[trigger] files@[k])@, product_name@),
        },
{
    let product = product_name.to_lowercase();
    let mut i: usize = 0;
    while i < files.len()
        invariant
            i <= files@.len(),
            product@ == lowercase(product_name@),
            forall|k: int|
                0 <= k < i ==> !shows_product((#[trigger] files@[k])@, product_name@),
        decreases files@.len() - i,
    {
        if let Some(code) = stem(files[i].as_str()) {
            let lower = code.as_str().to_lowercase();
            if contains(product.as_str(), lower.as_str()) {
                return Some(i);
            }
        }
        i = i + 1;
    }
    None
}

/// The name of a card stays on the page whatever is known of it: the text begins with it.
pub proof fn law_gpu_name_is_always_shown(
    name: Seq<char>,
    vram_mb: u32,
    driver: Seq<char>,
    status: Option<Seq<char>>,
)
    ensures
        gpu_text(name, vram_mb, driver, status).len() >= name.len(),
        gpu_text(name, vram_mb, driver, status).take(name.len() as int) == name,
{
    assert(gpu_text(name, vram_mb, driver, status).take(name.len() as int) =~= name);
}

/// A rounded amount is never more than half a unit away, and halfway it is even.
pub proof fn law_rounding_goes_to_the_nearest(n: nat, unit: nat)
    requires
        unit > 0,
    ensures
        ({
            let r = nearest_even(n, unit);
            &&& 2 * (unit * r) <= 2 * n + unit
            &&& 2 * n <= 2 * (unit * r) + unit
            &&& 2 * (unit * r) == 2 * n + unit || 2 * n == 2 * (unit * r) + unit ==> r % 2 == 0
        }),
{
    let below = n / unit;
    let over = n % unit;
    assert(n == unit * below + over && 0 <= over < unit) by (nonlinear_arith)
        requires
            below == n / unit,
            over == n % unit,
            unit > 0,
    ;
    assert(unit * (below + 1) == unit * below + unit) by (nonlinear_arith);
}

/// A gigabyte of memory is 1048576 kibibytes.
pub proof fn law_memory_is_shown_in_gigabytes(gb: u64)
    requires
        gb < 0x1000_0000,
    ensures
        ram_gb((gb * 1_048_576) as u64) == gb,
{
    law_rounding_goes_to_the_nearest((gb * 1_048_576) as nat, 1_048_576);
}

/// What is said of a card: its memory, its driver and its state, in this order, and each only
/// where there is something to say.
pub proof fn law_card_facts_stand_in_order(
    vram_mb: u32,
    driver: Seq<char>,
    status: Option<Seq<char>>,
)
    ensures
        ({
            let facts = gpu_facts(vram_mb, driver, status);
            let memory: int = if vram_mb > 0 {
                1
            } else {
                0
            };
            let named: int = if driver.len() > 0 {
                1
            } else {
                0
            };
            let state: int = if status is Some {
                1
            } else {
                0
            };
            &&& facts.len() == memory + named + state
            &&& vram_mb > 0 ==> facts[0] == decimal_text(nearest_even(vram_mb as nat, 1024))
                + " GB VRAM"@
            &&& driver.len() > 0 ==> facts[memory] == "Driver "@ + driver
            &&& status is Some ==> facts[memory + named] == status->0
        }),
{
}

/// The summary names the cores, the memory and the card, in this order, and each only where
/// it is known.
pub proof fn law_summary_parts_stand_in_order(
    cores: Option<Seq<char>>,
    ram_kib: u64,
    gpu_name: Seq<char>,
    unknown: Seq<char>,
)
    ensures
        ({
            let parts = summary_parts(cores, ram_kib, gpu_name, unknown);
            let first: int = if cores is Some {
                1
            } else {
                0
            };
            let second: int = if ram_kib > 0 {
                1
            } else {
                0
            };
            let third: int = if gpu_name.len() > 0 && gpu_name != unknown {
                1
            } else {
                0
            };
            &&& parts.len() == first + second + third
            &&& cores is Some ==> parts[0] == cores->0
            &&& ram_kib > 0 ==> parts[first] == decimal_text(ram_gb(ram_kib)) + " GB RAM"@
            &&& third == 1 ==> parts[first + second] == gpu_name
        }),
{
}

/// The first two disks are shown, each with its model, its size and its kind, and how many
/// more there are.
pub proof fn law_two_disks_are_shown(storage: Seq<StorageDevice>)
    requires
        storage.len() > 0,
    ensures
        storage_lines(storage)[0] == trimmed(storage[0].model@) + " · "@ + decimal_text(
            nearest_even(storage[0].sectors as nat, 2_097_152),
        ) + " GB · "@ + storage[0].kind@,
        storage.len() >= 2 ==> storage_lines(storage)[1] == trimmed(storage[1].model@) + " · "@
            + decimal_text(nearest_even(storage[1].sectors as nat, 2_097_152)) + " GB · "@
            + storage[1].kind@,
        storage.len() <= 2 ==> storage_lines(storage).len() == storage.len(),
        storage.len() > 2 ==> storage_lines(storage).len() == 3 && storage_lines(storage)[2]
            == "+"@ + decimal_text((storage.len() - 2) as nat) + " ..."@,
{
}

/// A photo is named after its model up to the last dot.
pub proof fn law_photo_is_named_up_to_its_last_dot(code: Seq<char>, ending: Seq<char>)
    requires
        forall|i: int| 0 <= i < ending.len() ==> #[trigger] ending[i] != '.',
    ensures
        stem_of(code + (seq!['.'] + ending)) == Some(code),
        stem_of(ending) is None,
    decreases ending.len(),
{
    let file = code + (seq!['.'] + ending);
    if ending.len() == 0 {
        assert(file.last() == '.');
        assert(file.drop_last() =~= code);
    } else {
        assert(file.last() == ending.last());
        assert(ending.last() == ending[ending.len() - 1]);
        assert(file.drop_last() =~= code + (seq!['.'] + ending.drop_last()));
        law_photo_is_named_up_to_its_last_dot(code, ending.drop_last());
    }
}

} // verus!
