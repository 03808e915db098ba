use megasena::acertos::calcular_acertos;

#[test]
fn um_acerto_de_ponta_a_ponta() {
    assert_eq!(calcular_acertos(&[1, 2, 3, 4, 5, 6], &[1, 9, 37, 39, 42, 44]), 1);
}

#[test]
fn seis_acertos_de_ponta_a_ponta() {
    assert_eq!(calcular_acertos(&[1, 2, 3, 4, 5, 6], &[1, 2, 3, 4, 5, 6]), 6);
}

#[test]
fn acertos_nao_dependem_da_ordem() {
    let a = calcular_acertos(&[5, 10, 15, 20, 25, 30, 35], &[30, 1, 5, 2, 35, 3]);
    let b = calcular_acertos(&[35, 30, 25, 20, 15, 10, 5], &[3, 35, 2, 5, 1, 30]);
    assert_eq!(a, 3);
    assert_eq!(a, b);
}

#[test]
fn acertos_ficam_entre_zero_e_seis() {
    let aposta: Vec<i32> = (1..=20).collect();
    assert_eq!(calcular_acertos(&aposta, &[1, 2, 3, 4, 5, 6]), 6);
    assert_eq!(calcular_acertos(&aposta, &[21, 22, 23, 24, 25, 26]), 0);
}

#[test]
fn acertos_com_listas_vazias() {
    assert_eq!(calcular_acertos(&[], &[1, 2, 3, 4, 5, 6]), 0);
    assert_eq!(calcular_acertos(&[1, 2, 3, 4, 5, 6], &[]), 0);
}
