use darkshell::schema::{is_valid_k8s_cpu, is_valid_k8s_memory};

/// Whether a quantity reads as a positive, finite number of cores.
fn cores_ok(s: &str) -> bool {
    s.parse::<f64>().is_ok_and(|v| v > 0.0 && v.is_finite())
}

fn cpu(s: &str) -> bool {
    is_valid_k8s_cpu(s, cores_ok(s))
}

#[test]
fn test_various_valid_cpu_values() {
    assert!(cpu("1"));
    assert!(cpu("2"));
    assert!(cpu("0.5"));
    assert!(cpu("100m"));
    assert!(cpu("500m"));
    assert!(cpu("2500m"));
}

#[test]
fn test_various_invalid_cpu_values() {
    assert!(!cpu(""));
    assert!(!cpu("abc"));
    assert!(!cpu("0"));
    assert!(!cpu("0m"));
    assert!(!cpu("-1"));
    assert!(!cpu("m"));
}

#[test]
fn test_various_valid_memory_values() {
    assert!(is_valid_k8s_memory("512Mi"));
    assert!(is_valid_k8s_memory("4Gi"));
    assert!(is_valid_k8s_memory("1Ti"));
    assert!(is_valid_k8s_memory("256M"));
    assert!(is_valid_k8s_memory("1G"));
    assert!(is_valid_k8s_memory("1024"));
    assert!(is_valid_k8s_memory("1Ki"));
}

#[test]
fn test_various_invalid_memory_values() {
    assert!(!is_valid_k8s_memory(""));
    assert!(!is_valid_k8s_memory("abc"));
    assert!(!is_valid_k8s_memory("0"));
    assert!(!is_valid_k8s_memory("0Gi"));
    assert!(!is_valid_k8s_memory("Gi"));
}

#[test]
fn millicores_need_a_positive_integer() {
    assert!(cpu("1m"));
    assert!(!cpu("1.5m"));
    assert!(!cpu("+0m"));
    assert!(cpu("+5m"));
}
