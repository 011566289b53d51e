use hf::eri::{build_eri_tensor_symmetric, canonical_values};
use hf::matrix::build_one_electron_matrices;
use hf::orbitals::{energy_key, occupied_orbitals, sort_orbitals};
use hf::pairs::pair_index;
use hf::scf::{check_shell, ScfError, ScfRun, ScfStatus};

fn canonical(i: usize, j: usize, k: usize, l: usize) -> (usize, usize, usize, usize) {
    let (i, j) = if i >= j { (i, j) } else { (j, i) };
    let (k, l) = if k >= l { (k, l) } else { (l, k) };
    if i * (i + 1) / 2 + j >= k * (k + 1) / 2 + l {
        (i, j, k, l)
    } else {
        (k, l, i, j)
    }
}

#[test]
fn pair_index_values() {
    assert_eq!(pair_index(3, 0, 0), 0);
    assert_eq!(pair_index(3, 1, 0), 1);
    assert_eq!(pair_index(3, 1, 1), 2);
    assert_eq!(pair_index(3, 2, 0), 3);
    assert_eq!(pair_index(3, 0, 2), 3);
    assert_eq!(pair_index(3, 2, 2), 5);
}

#[test]
fn one_electron_matrix_is_mirrored() {
    let m = build_one_electron_matrices(3, |i: usize, j: usize| (10 * i + j) as u32);
    assert_eq!(m.len(), 3);
    for i in 0..3 {
        assert_eq!(m[i].len(), 3);
        for j in 0..3 {
            assert_eq!(m[i][j], m[j][i]);
            let (a, b) = if i >= j { (i, j) } else { (j, i) };
            assert_eq!(m[i][j], (10 * a + b) as u32);
        }
    }
}

#[test]
fn one_electron_matrix_empty_basis() {
    let m = build_one_electron_matrices(0, |_i: usize, _j: usize| 0u8);
    assert!(m.is_empty());
}

#[test]
fn one_electron_matrix_with_floats() {
    let m = build_one_electron_matrices(2, |i: usize, j: usize| (1.0 + i as f64, 0.5 * j as f64));
    assert_eq!(m[0][1], m[1][0]);
    assert_eq!(m[1][0], (2.0, 0.0));
    assert_eq!(m[1][1], (2.0, 0.5));
}

#[test]
fn canonical_table_shape_and_values() {
    let vals = canonical_values(2, &|i: usize, j: usize, k: usize, l: usize| (i, j, k, l));
    assert_eq!(vals.len(), 3);
    assert_eq!(vals[0], vec![(0, 0, 0, 0)]);
    assert_eq!(vals[1], vec![(1, 0, 0, 0), (1, 0, 1, 0)]);
    assert_eq!(vals[2], vec![(1, 1, 0, 0), (1, 1, 1, 0), (1, 1, 1, 1)]);
}

#[test]
fn eri_tensor_every_position_from_its_representative() {
    let n = 3;
    let t = build_eri_tensor_symmetric(n, |i: usize, j: usize, k: usize, l: usize| (i, j, k, l));
    assert_eq!(t.len(), n);
    for i in 0..n {
        for j in 0..n {
            for k in 0..n {
                for l in 0..n {
                    assert_eq!(t[i][j][k][l], canonical(i, j, k, l));
                }
            }
        }
    }
}

#[test]
fn eri_tensor_eight_fold_symmetry() {
    let n = 3;
    let t = build_eri_tensor_symmetric(n, |i: usize, j: usize, k: usize, l: usize| {
        (1000 * i + 100 * j + 10 * k + l) as f64 * 0.25
    });
    for i in 0..n {
        for j in 0..n {
            for k in 0..n {
                for l in 0..n {
                    let v = t[i][j][k][l];
                    assert_eq!(v, t[j][i][k][l]);
                    assert_eq!(v, t[i][j][l][k]);
                    assert_eq!(v, t[j][i][l][k]);
                    assert_eq!(v, t[k][l][i][j]);
                    assert_eq!(v, t[l][k][i][j]);
                    assert_eq!(v, t[k][l][j][i]);
                    assert_eq!(v, t[l][k][j][i]);
                }
            }
        }
    }
    assert_eq!(t[0][1][2][1], 2110.0 * 0.25);
}

#[test]
fn eri_tensor_empty_basis() {
    let t = build_eri_tensor_symmetric(0, |_i: usize, _j: usize, _k: usize, _l: usize| 1u8);
    assert!(t.is_empty());
}

#[test]
fn orbitals_sorted_by_energy_key() {
    let keys = vec![30u64, 10, 20, 10];
    assert_eq!(sort_orbitals(&keys), vec![1, 3, 2, 0]);
    assert_eq!(sort_orbitals(&vec![]), Vec::<usize>::new());
}

#[test]
fn occupied_orbitals_are_lowest() {
    let keys = vec![30u64, 10, 20, 10];
    assert_eq!(occupied_orbitals(&keys, 1), vec![1]);
    assert_eq!(occupied_orbitals(&keys, 3), vec![1, 3, 2]);
    assert_eq!(occupied_orbitals(&keys, 0), Vec::<usize>::new());
    assert_eq!(occupied_orbitals(&vec![5u64, 2], 1), vec![1]);
}

#[test]
fn odd_electron_count_rejected() {
    assert_eq!(ScfRun::start(3, 2, 50), Err(ScfError::OddElectronCount));
    assert_eq!(ScfRun::start(1, 2, 50), Err(ScfError::OddElectronCount));
}

#[test]
fn too_many_electrons_for_basis() {
    assert_eq!(ScfRun::start(6, 2, 50), Err(ScfError::TooFewOrbitals));
}

#[test]
fn empty_budget_does_not_converge() {
    assert_eq!(ScfRun::start(2, 2, 0), Err(ScfError::NonConvergence));
}

#[test]
fn start_sets_occupation() {
    let run = ScfRun::start(4, 2, 50).unwrap();
    assert_eq!(run, ScfRun { iteration: 0, max_iterations: 50, occupied: 2 });
}

#[test]
fn single_iteration_budget_reports_non_convergence() {
    let mut run = ScfRun::start(2, 2, 1).unwrap();
    assert_eq!(run.finish_iteration(false), Err(ScfError::NonConvergence));
    assert_eq!(run.iteration, 1);
}

#[test]
fn converges_on_third_iteration() {
    let mut run = ScfRun::start(2, 2, 50).unwrap();
    assert_eq!(run.finish_iteration(false), Ok(ScfStatus::Continue));
    assert_eq!(run.finish_iteration(false), Ok(ScfStatus::Continue));
    assert_eq!(run.finish_iteration(true), Ok(ScfStatus::Converged { iterations: 3 }));
}

#[test]
fn shell_shape_checked() {
    assert_eq!(check_shell(3, 3), Ok(()));
    assert_eq!(check_shell(3, 2), Err(ScfError::MalformedBasisInput));
    assert_eq!(check_shell(0, 0), Err(ScfError::MalformedBasisInput));
}

#[test]
fn energy_keys_follow_energies() {
    let energies = [-2.0f64, -1.0, -0.0, 0.0, 0.5, 3.0, f64::INFINITY];
    for w in energies.windows(2) {
        assert!(energy_key(w[0].to_bits()) < energy_key(w[1].to_bits()), "{} {}", w[0], w[1]);
    }
    assert_eq!(energy_key(0.0f64.to_bits()), 0x8000_0000_0000_0000);
    assert_eq!(energy_key((-0.0f64).to_bits()), 0x7fff_ffff_ffff_ffff);
}

#[test]
fn orbitals_ordered_by_encoded_energies() {
    let energies = [0.67f64, -0.58, 1.2, -1.5];
    let keys: Vec<u64> = energies.iter().map(|e| energy_key(e.to_bits())).collect();
    assert_eq!(sort_orbitals(&keys), vec![3, 1, 0, 2]);
    assert_eq!(occupied_orbitals(&keys, 2), vec![3, 1]);
}
