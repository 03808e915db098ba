use megasena::comandos::{adicionar_aposta, concursos_recentes, validar_aposta};
use megasena::database::Database;
use megasena::modelos::{Erro, Invalido};

#[test]
fn aposta_valida_e_guardada() {
    let mut db = Database::new();
    let a = adicionar_aposta(&mut db, (1..=20).collect(), 2650, 12, "d".to_string()).unwrap();
    assert_eq!(a.id, 1);
    assert_eq!(a.numeros.len(), 20);
    assert_eq!(a.quantidade_concursos, 12);
    assert_eq!(db.listar_apostas().len(), 1);
}

#[test]
fn aposta_com_numeros_de_menos_ou_demais_e_recusada() {
    let mut db = Database::new();
    let r = adicionar_aposta(&mut db, vec![1, 2, 3, 4, 5], 2650, 1, "d".to_string());
    assert!(matches!(r, Err(Erro::Validacao(Invalido::QuantidadeNumeros(5)))));
    let r = adicionar_aposta(&mut db, (1..=21).collect(), 2650, 1, "d".to_string());
    assert!(matches!(r, Err(Erro::Validacao(Invalido::QuantidadeNumeros(21)))));
    assert_eq!(db.quantidade_apostas(), 0);
}

#[test]
fn aposta_com_concurso_inicial_invalido_e_recusada() {
    assert_eq!(validar_aposta(&vec![1, 2, 3, 4, 5, 6], 0, 1), Err(Invalido::ConcursoInicial(0)));
    assert_eq!(validar_aposta(&vec![1, 2, 3, 4, 5, 6], -4, 1), Err(Invalido::ConcursoInicial(-4)));
    assert_eq!(
        validar_aposta(&vec![1, 2, 3, 4, 5, 6], i32::MAX - 1, 2),
        Err(Invalido::ConcursoInicial(i32::MAX - 1))
    );
}

#[test]
fn aposta_com_quantidade_de_concursos_invalida_e_recusada() {
    assert_eq!(validar_aposta(&vec![1, 2, 3, 4, 5, 6], 10, 0), Err(Invalido::QuantidadeConcursos(0)));
    assert_eq!(validar_aposta(&vec![1, 2, 3, 4, 5, 6], 10, 13), Err(Invalido::QuantidadeConcursos(13)));
    assert_eq!(validar_aposta(&vec![1, 2, 3, 4, 5, 6], 10, 1), Ok(()));
}

#[test]
fn concursos_recentes_em_ordem_decrescente() {
    assert_eq!(concursos_recentes(2700, 3), vec![2700, 2699, 2698]);
    assert_eq!(concursos_recentes(2, 5), vec![2, 1]);
    assert_eq!(concursos_recentes(10, 0), Vec::<i32>::new());
    assert_eq!(concursos_recentes(0, 5), Vec::<i32>::new());
    assert_eq!(concursos_recentes(2650, 36).len(), 36);
    assert_eq!(concursos_recentes(2650, 36)[35], 2615);
}
