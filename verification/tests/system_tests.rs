use velo_shell::system::{cpu_deltas, cpu_fields, cpu_totals, mem_field, CpuTotals};

#[test]
fn cpu_line_numbers() {
    let stat = "cpu  4705 150 1120 16250 520 0 35 0 0 0\ncpu0 1 2 3 4 5\n";
    let f = cpu_fields(stat);
    assert_eq!(f, vec![4705, 150, 1120, 16250, 520, 0, 35, 0, 0, 0]);
    let t = cpu_totals(&f).unwrap();
    assert_eq!(t.idle, 16250 + 520);
    assert_eq!(t.total, 4705 + 150 + 1120 + 16250 + 520 + 35);
    assert_eq!(cpu_fields(""), Vec::<u64>::new());
    assert_eq!(cpu_fields("cpu 1 x 3"), vec![1, 3]);
}

#[test]
fn cpu_totals_with_few_fields_and_overflow() {
    let t = cpu_totals(&vec![1, 2, 3, 4]).unwrap();
    assert_eq!((t.idle, t.total), (4, 10));
    let t = cpu_totals(&vec![]).unwrap();
    assert_eq!((t.idle, t.total), (0, 0));
    assert!(cpu_totals(&vec![u64::MAX, 1]).is_none());
}

#[test]
fn cpu_deltas_saturate() {
    let a = CpuTotals { idle: 10, total: 100 };
    let b = CpuTotals { idle: 15, total: 140 };
    assert_eq!(cpu_deltas(a, b), (40, 5));
    assert_eq!(cpu_deltas(b, a), (0, 0));
}

#[test]
fn meminfo_fields() {
    let info = "MemTotal:       16000000 kB\nMemFree:  100 kB\nMemAvailable:   8000000 kB\n";
    assert_eq!(mem_field(info, "MemTotal:"), Some("16000000".to_string()));
    assert_eq!(mem_field(info, "MemAvailable:"), Some("8000000".to_string()));
    assert_eq!(mem_field(info, "SwapTotal:"), None);
    assert_eq!(mem_field("MemTotal: 5 kB\nMemTotal:\n", "MemTotal:"), None);
    assert_eq!(mem_field("MemTotal: 5 kB\nMemTotal: 7 kB\n", "MemTotal:"), Some("7".to_string()));
}
