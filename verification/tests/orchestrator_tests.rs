
/// A pipeline step of the test: its name, whether it fails, and whether it
/// leaves a quota reservation in the context.
struct Step {
    name: &'static str,
    fails: bool,
    leaves_reservation: bool,
}

fn paso(name: &'static str, fails: bool, leaves_reservation: bool) -> Step {
    Step { name, fails, leaves_reservation }
}

/// Runs the steps through the library's driver; answers whether the run
/// succeeded, whether it ended with a reservation, and the steps
/// compensated, in order.
fn run_steps(steps: &[Step]) -> (bool, bool, Vec<&'static str>) {
    let report = metri_engine::iop::saga::run_steps(steps.len(), |i: usize| if steps[i].fails { None } else { Some(steps[i].leaves_reservation) });
    let undone = report.compensated.iter().map(|&i| steps[i].name).collect();
    (report.completed, report.reversible, undone)
}

#[test]
fn un_fallo_posterior_deshace_lo_ya_hecho() {
    let (ok, _, compensados) = run_steps(&[
        paso("cedar", false, false),
        paso("quota", false, true),
        paso("janus", true, false),
    ]);
    assert!(!ok, "el error original debe llegar al cliente");
    assert_eq!(compensados, vec!["quota", "cedar"]);
}

#[test]
fn si_falla_el_paso_que_reserva_no_se_compensa_nada() {
    let (ok, _, compensados) = run_steps(&[paso("cedar", false, false), paso("quota", true, false)]);
    assert!(!ok);
    assert!(compensados.is_empty());
}

#[test]
fn el_camino_feliz_no_deshace_nada() {
    let (ok, reservation, compensados) = run_steps(&[
        paso("cedar", false, false),
        paso("quota", false, true),
        paso("janus", false, false),
    ]);
    assert!(ok, "los tres pasos van bien");
    assert!(compensados.is_empty());
    assert!(reservation);
}

#[test]
fn sin_reserva_un_fallo_no_dispara_compensacion() {
    let (ok, reservation, compensados) = run_steps(&[paso("cedar", false, false), paso("janus", true, false)]);
    assert!(!ok);
    assert!(compensados.is_empty());
    assert!(!reservation);
}
