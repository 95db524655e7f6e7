use predator_sense::hardware::machine::{
    active_net_interface, read_storage, read_system_info, BlockEntry, NetEntry, Readings,
};
use predator_sense::hardware::sysinfo::{
    is_nitro_brand, matches_model, product_matches, read_cpu_cores, read_cpu_max_freq,
    read_cpu_model, read_os_pretty, read_ram_total_kib,
};

fn text(s: &str) -> Option<String> {
    Some(s.to_string())
}

#[test]
fn matches_the_model_code_as_a_whole_word() {
    assert!(matches_model("Predator PH16-71", &["PH16-71"]));
    assert!(matches_model("predator ph16-71", &["PH16-71"]));
}

#[test]
fn does_not_match_a_longer_neighbouring_model_code() {
    // A different chassis - its firmware is not known to behave the same,
    // so a gated path must stay off rather than guess.
    assert!(!matches_model("Predator PH16-71X", &["PH16-71"]));
    assert!(!matches_model("Predator PH16-72", &["PH16-71"]));
}

#[test]
fn unknown_or_empty_dmi_never_matches() {
    assert!(!matches_model("Nitro AN515-58", &["PH16-71"]));
    assert!(!matches_model("", &["PH16-71"]));
    assert!(!matches_model("Predator PH16-71", &[]));
}

#[test]
fn a_forced_product_stands_in_for_the_machine() {
    let real = text("Nitro AN515-58\n");
    assert!(product_matches(&None, &text("Predator PH16-71\n"), &["PH16-71"]));
    assert!(product_matches(
        &text("Predator PH16-71"),
        &real,
        &["PH16-71"]
    ));
    assert!(!product_matches(&None, &None, &["PH16-71"]));
    assert!(is_nitro_brand(&None, &real));
    assert!(is_nitro_brand(&None, &text("Acer NITRO 5")));
    assert!(!is_nitro_brand(&text("Predator"), &real));
    assert!(!is_nitro_brand(&None, &None));
}

#[test]
fn the_operating_system_names_itself() {
    let release = text("NAME=Fedora\nPRETTY_NAME=\"Fedora Linux 42\"\nID=fedora\n");
    assert_eq!(read_os_pretty(&release), "Fedora Linux 42");
    assert_eq!(read_os_pretty(&text("NAME=Fedora\n")), "Linux");
    assert_eq!(read_os_pretty(&None), "Linux");
}

const CPUINFO: &str = "processor\t: 0\nmodel name\t: 13th Gen Intel(R) Core(TM) i7-13700HX\ncpu cores\t: 16\nprocessor\t: 1\nmodel name\t: other\ncpu cores\t: 4\n";

#[test]
fn the_first_processor_speaks_for_all() {
    assert_eq!(
        read_cpu_model(&text(CPUINFO)),
        "13th Gen Intel(R) Core(TM) i7-13700HX"
    );
    assert_eq!(read_cpu_cores(&text(CPUINFO)), 16);
    assert_eq!(read_cpu_cores(&text("cpu cores\t: many\n")), 0);
    assert_eq!(read_cpu_cores(&None), 0);
    assert_eq!(read_cpu_max_freq(&text("5000000\n")), 5000);
    assert_eq!(read_cpu_max_freq(&text("fast")), 0);
    assert_eq!(
        read_ram_total_kib(&text("MemTotal:       32561234 kB\nMemFree: 1 kB\n")),
        32_561_234
    );
    assert_eq!(read_ram_total_kib(&text("MemFree: 1 kB\n")), 0);
}

fn block(name: &str, sectors: &str, rotational: Option<&str>) -> BlockEntry {
    BlockEntry {
        name: name.to_string(),
        size: text(sectors),
        model: text(" WD Black \n"),
        rotational: rotational.map(str::to_string),
    }
}

#[test]
fn disks_are_listed_by_name() {
    let entries = vec![
        block("sdb", "4194304\n", Some("1\n")),
        block("nvme0n1", "2000409264\n", Some("0\n")),
        block("loop0", "4194304\n", Some("0\n")),
        block("sda", "2097152\n", Some("0\n")),
        block("sdc", "2097151\n", Some("1\n")), // under a gigabyte
    ];
    let disks = read_storage(&entries, "Unknown");
    let names: Vec<&str> = disks.iter().map(|d| d.name.as_str()).collect();
    assert_eq!(names, ["nvme0n1", "sda", "sdb"]);
    let kinds: Vec<&str> = disks.iter().map(|d| d.kind).collect();
    assert_eq!(kinds, ["NVMe SSD", "SATA SSD", "HDD"]);
    assert_eq!(disks[0].model, "WD Black");
    assert_eq!(disks[0].sectors, 2_000_409_264);
}

fn interface(name: &str, state: &str) -> NetEntry {
    NetEntry {
        name: name.to_string(),
        operstate: text(state),
        address: text("aa:bb:cc:dd:ee:ff\n"),
    }
}

#[test]
fn a_wireless_interface_comes_before_a_wired_one() {
    let both = vec![interface("enp3s0", "up\n"), interface("wlp4s0", "up\n")];
    assert_eq!(active_net_interface(&both).as_deref(), Some("wlp4s0"));
    let wired = vec![interface("enp3s0", "up\n"), interface("wlp4s0", "down\n")];
    assert_eq!(active_net_interface(&wired).as_deref(), Some("enp3s0"));
    assert_eq!(active_net_interface(&vec![interface("lo", "up\n")]), None);
}

#[test]
fn the_system_page_shows_what_was_read() {
    let readings = Readings {
        product_name: text("Predator PH16-71\n"),
        vendor: None,
        bios_version: text("V1.26\n"),
        kernel: text("6.18.0\n"),
        os_release: None,
        cpuinfo: text(CPUINFO),
        cpu_threads: 24,
        cpu_max_freq: text("5000000\n"),
        meminfo: None,
        gpu_name: String::new(),
        gpu_driver: "610.43.03".to_string(),
        display_name: text("Intel UHD"),
        blocks: vec![block("sda", "2097152", Some("0"))],
        interfaces: vec![interface("wlp4s0", "up\n")],
    };
    let info = read_system_info(&readings, "Unknown card");
    assert_eq!(info.product_name, "Predator PH16-71");
    assert_eq!(info.vendor, "Unknown");
    assert_eq!(info.gpu_name, "Intel UHD");
    assert_eq!(info.cpu_cores, 16);
    assert_eq!(info.storage.len(), 1);
    assert_eq!(info.net_interface, "wlp4s0");
    assert_eq!(info.net_type, "Wi-Fi");
    assert_eq!(info.net_mac, "aa:bb:cc:dd:ee:ff");
}
