use server_manager::engine;
use server_manager::status::{
    decimal_string, disks, join_names, Container, Disk, DiskInfo, DockerState, Memory, MemoryInfo, Port,
    Version,
};

fn engine_container() -> engine::Container {
    engine::Container {
        id: "abc".to_string(),
        names: vec!["/web".to_string(), "/www".to_string()],
        image: "nginx".to_string(),
        command: "nginx".to_string(),
        created: 1_700_000_000,
        ports: vec![engine::Port { private_port: 80, public_port: 8080, port_type: "tcp".to_string() }],
        status: "Up 2 hours".to_string(),
    }
}

#[test]
fn decimal_texts() {
    assert_eq!(decimal_string(0), "0");
    assert_eq!(decimal_string(8080), "8080");
    assert_eq!(decimal_string(-42), "-42");
    assert_eq!(decimal_string(i64::MIN), i64::MIN.to_string());
    assert_eq!(decimal_string(i64::MAX), i64::MAX.to_string());
}

#[test]
fn names_are_joined() {
    assert_eq!(join_names(&vec![]), "");
    assert_eq!(join_names(&vec!["/a".to_string()]), "/a");
    assert_eq!(join_names(&vec!["/a".to_string(), "/b".to_string(), "/c".to_string()]), "/a, /b, /c");
}

#[test]
fn memory_sizes_are_decimal() {
    let m = Memory::new(&MemoryInfo { total: 1000, free: 1500, available: 0, used: 2_000_000 });
    assert_eq!(m.total, "1 kB");
    assert_eq!(m.free, "1.50 kB");
    assert_eq!(m.available, "0 B");
    assert_eq!(m.used, "2 MB");
}

#[test]
fn disk_is_shown() {
    let d = Disk::new(&DiskInfo {
        name: "sda1".to_string(),
        kind: "SSD".to_string(),
        file_system: "ext4".to_string(),
        total_space: 500_000_000_000,
        available_space: 1234,
    });
    assert_eq!(d.name, "sda1");
    assert_eq!(d.kind, "SSD");
    assert_eq!(d.file_system, "ext4");
    assert_eq!(d.total_space, "500 GB");
    assert_eq!(d.available_space, "1.23 kB");
}

#[test]
fn defaults_read_not_available() {
    let m = Memory::default();
    assert_eq!(m.total, "n/a");
    assert_eq!(m.used, "n/a");
    let d = Disk::default();
    assert_eq!(d.available_space, "n/a");
    let v = Version::default();
    assert_eq!(v.version, "n/a");
    assert_eq!(v.api_version, "n/a");
    let s = DockerState::default();
    assert!(s.containers.is_empty());
    assert_eq!(s.version.version, "n/a");
}

#[test]
fn port_numbers_become_text() {
    let p = Port::new(&engine::Port { private_port: 80, public_port: 8080, port_type: "tcp".to_string() });
    assert_eq!(p.private_port, "80");
    assert_eq!(p.public_port, "8080");
    assert_eq!(p.port_type, "tcp");
}

#[test]
fn container_is_shown() {
    let c = Container::with_created(&engine_container(), vec!["line".to_string()], "just now".to_string());
    assert_eq!(c.id, "abc");
    assert_eq!(c.name, "/web, /www");
    assert_eq!(c.image, "nginx");
    assert_eq!(c.status, "Up 2 hours");
    assert_eq!(c.created, "just now");
    assert_eq!(c.ports.len(), 1);
    assert_eq!(c.ports[0].public_port, "8080");
    assert_eq!(c.logs, vec!["line".to_string()]);
}

#[test]
fn container_creation_time_is_described() {
    let c = Container::new(&engine_container(), Vec::new());
    assert!(c.created.ends_with("(2023-11-14T22:13:20Z)"));
    assert!(c.created.contains("ago"));
    assert_eq!(c.name, "/web, /www");
}

#[test]
fn version_is_copied() {
    let v = Version::new(&engine::Version { version: "27.3.1".to_string(), api_version: "1.47".to_string() });
    assert_eq!(v.version, "27.3.1");
    assert_eq!(v.api_version, "1.47");
}

#[test]
fn disks_keep_report_order() {
    let list = vec![
        DiskInfo { name: "a".to_string(), kind: "HDD".to_string(), file_system: "xfs".to_string(), total_space: 1000, available_space: 0 },
        DiskInfo { name: "b".to_string(), kind: "SSD".to_string(), file_system: "ext4".to_string(), total_space: 2000, available_space: 1000 },
    ];
    let shown = disks(&list);
    assert_eq!(shown.len(), 2);
    assert_eq!(shown[0].name, "a");
    assert_eq!(shown[0].total_space, "1 kB");
    assert_eq!(shown[1].name, "b");
    assert_eq!(shown[1].total_space, "2 kB");
    assert!(disks(&Vec::new()).is_empty());
}
