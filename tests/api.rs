use megasena::api::{
    converter_dezenas, faixa_principal, montar_resultado, AcaoBusca, AcaoUltimo, EtapaBusca,
    EtapaUltimo, FaixaPremio, Fonte, RespostaApi, CONCURSO_RESERVA,
};
use megasena::modelos::{Erro, Invalido};

fn textos(v: &[&str]) -> Vec<String> {
    v.iter().map(|s| s.to_string()).collect()
}

fn faixa(descricao: &str, ganhadores: i32, centavos: u64) -> FaixaPremio {
    FaixaPremio {
        descricao_faixa: descricao.to_string(),
        numero_de_ganhadores: ganhadores,
        valor_premio_centavos: centavos,
    }
}

fn resposta(dezenas: &[&str], faixas: Vec<FaixaPremio>) -> RespostaApi {
    RespostaApi {
        numero: 2650,
        data_apuracao: "01/11/2023".to_string(),
        dezenas: textos(dezenas),
        acumulado: true,
        faixas,
    }
}

#[test]
fn dezenas_em_texto_viram_numeros() {
    let lidos = converter_dezenas(&textos(&["01", "09", "37", "+4", "-3", "0"]));
    assert_eq!(lidos, vec![1, 9, 37, 4, -3, 0]);
}

#[test]
fn dezenas_ilegiveis_sao_descartadas() {
    let lidos = converter_dezenas(&textos(&["07", "x", "", "+", " 8", "99999999999", "12a", "42"]));
    assert_eq!(lidos, vec![7, 42]);
}

#[test]
fn faixa_principal_e_a_primeira_com_seis() {
    let faixas = vec![faixa("5 acertos", 10, 100), faixa("6 acertos", 1, 500), faixa("Sena 6", 2, 7)];
    assert_eq!(faixa_principal(&faixas), Some(1));
    assert_eq!(faixa_principal(&vec![faixa("Quina", 1, 1), faixa("Quadra", 2, 2)]), None);
    assert_eq!(faixa_principal(&vec![]), None);
}

#[test]
fn resposta_valida_vira_resultado() {
    let r = resposta(
        &["01", "09", "37", "39", "42", "44"],
        vec![faixa("5 acertos", 40, 5_000_000), faixa("6 acertos", 0, 0), faixa("6 de novo", 9, 9)],
    );
    let res = montar_resultado(r).unwrap();
    assert_eq!(res.concurso, 2650);
    assert_eq!(res.numeros_sorteados, vec![1, 9, 37, 39, 42, 44]);
    assert_eq!(res.data_sorteio, "01/11/2023");
    assert!(res.acumulado);
    assert_eq!(res.valor_premio_centavos, Some(0));
    assert_eq!(res.ganhadores, Some(0));
}

#[test]
fn resposta_sem_faixa_de_seis_fica_sem_premio() {
    let res = montar_resultado(resposta(&["01", "02", "03", "04", "05", "06"], vec![])).unwrap();
    assert_eq!(res.valor_premio_centavos, None);
    assert_eq!(res.ganhadores, None);
}

#[test]
fn resposta_com_cinco_dezenas_falha() {
    let r = montar_resultado(resposta(&["01", "02", "03", "04", "05"], vec![]));
    assert!(matches!(r, Err(Erro::Validacao(Invalido::QuantidadeDezenas(5)))));
}

#[test]
fn resposta_com_sete_dezenas_falha_sem_cortar() {
    let r = montar_resultado(resposta(&["01", "02", "03", "04", "05", "06", "07"], vec![]));
    assert!(matches!(r, Err(Erro::Validacao(Invalido::QuantidadeDezenas(7)))));
}

#[test]
fn dezena_ilegivel_deixa_a_resposta_com_menos_de_seis() {
    let r = montar_resultado(resposta(&["01", "02", "03", "04", "05", "xx"], vec![]));
    assert!(matches!(r, Err(Erro::Validacao(Invalido::QuantidadeDezenas(5)))));
}

#[test]
fn busca_comeca_pela_fonte_primaria() {
    let (etapa, acao) = EtapaBusca::iniciar(2700);
    assert_eq!(etapa, EtapaBusca::Primaria(2700));
    assert!(matches!(acao, AcaoBusca::Consultar(Fonte::Primaria, 2700)));
}

#[test]
fn busca_aceita_resposta_valida_da_primaria() {
    let (etapa, _) = EtapaBusca::iniciar(2650);
    let (etapa, acao) = etapa.receber(Ok(resposta(&["01", "02", "03", "04", "05", "06"], vec![])));
    assert_eq!(etapa, EtapaBusca::Concluida);
    match acao {
        AcaoBusca::Concluir(Ok(r)) => assert_eq!(r.numeros_sorteados, vec![1, 2, 3, 4, 5, 6]),
        other => panic!("unexpected action {:?}", other),
    }
}

#[test]
fn busca_vai_ao_espelho_quando_a_primaria_falha() {
    let (etapa, _) = EtapaBusca::iniciar(2650);
    let (etapa, acao) = etapa.receber(Err(Erro::Transporte("timeout".to_string())));
    assert_eq!(etapa, EtapaBusca::Espelho(2650));
    assert!(matches!(acao, AcaoBusca::Consultar(Fonte::Espelho, 2650)));
}

#[test]
fn busca_vai_ao_espelho_quando_a_primaria_traz_dezenas_a_menos() {
    let (etapa, _) = EtapaBusca::iniciar(2650);
    let (etapa, acao) = etapa.receber(Ok(resposta(&["01", "02", "03"], vec![])));
    assert_eq!(etapa, EtapaBusca::Espelho(2650));
    assert!(matches!(acao, AcaoBusca::Consultar(Fonte::Espelho, 2650)));
}

#[test]
fn busca_aceita_resposta_do_espelho() {
    let (etapa, acao) = EtapaBusca::Espelho(2650)
        .receber(Ok(resposta(&["10", "20", "30", "40", "50", "60"], vec![])));
    assert_eq!(etapa, EtapaBusca::Concluida);
    assert!(matches!(acao, AcaoBusca::Concluir(Ok(_))));
}

#[test]
fn busca_termina_sem_resultado_quando_as_duas_fontes_falham() {
    let (etapa, _) = EtapaBusca::iniciar(2651);
    let (etapa, _) = etapa.receber(Err(Erro::Decodificacao("bad json".to_string())));
    let (etapa, acao) = etapa.receber(Ok(resposta(&["01", "02", "03", "04", "05", "06", "07"], vec![])));
    assert_eq!(etapa, EtapaBusca::Concluida);
    assert!(matches!(acao, AcaoBusca::Concluir(Err(Erro::NaoEncontrado(2651)))));
}

#[test]
fn ultimo_concurso_usa_reserva_quando_as_ancoras_falham() {
    let (etapa, acao) = EtapaUltimo::iniciar();
    assert_eq!(acao, AcaoUltimo::ConsultarAncora(Fonte::Primaria));
    let (etapa, acao) = etapa.receber_ancora(None);
    assert_eq!(acao, AcaoUltimo::ConsultarAncora(Fonte::Espelho));
    let (etapa, acao) = etapa.receber_ancora(None);
    assert_eq!(acao, AcaoUltimo::BuscarConcurso(CONCURSO_RESERVA + 1));
    let (etapa, acao) = etapa.receber_sondagem(false);
    assert_eq!(etapa, EtapaUltimo::Concluida(CONCURSO_RESERVA));
    assert_eq!(acao, AcaoUltimo::Concluir(CONCURSO_RESERVA));
}

#[test]
fn ultimo_concurso_sonda_no_maximo_duas_vezes() {
    let (etapa, _) = EtapaUltimo::iniciar();
    let (etapa, acao) = etapa.receber_ancora(Some(2800));
    assert_eq!(acao, AcaoUltimo::BuscarConcurso(2801));
    let (etapa, acao) = etapa.receber_sondagem(true);
    assert_eq!(acao, AcaoUltimo::BuscarConcurso(2802));
    let (etapa, acao) = etapa.receber_sondagem(true);
    assert_eq!(etapa, EtapaUltimo::Concluida(2802));
    assert_eq!(acao, AcaoUltimo::Concluir(2802));
}

#[test]
fn ultimo_concurso_pelo_espelho_para_na_primeira_falha() {
    let (etapa, _) = EtapaUltimo::iniciar();
    let (etapa, _) = etapa.receber_ancora(None);
    let (etapa, acao) = etapa.receber_ancora(Some(2760));
    assert_eq!(acao, AcaoUltimo::BuscarConcurso(2761));
    let (etapa, acao) = etapa.receber_sondagem(true);
    assert_eq!(acao, AcaoUltimo::BuscarConcurso(2762));
    let (_, acao) = etapa.receber_sondagem(false);
    assert_eq!(acao, AcaoUltimo::Concluir(2761));
}

#[test]
fn ultimo_concurso_nao_sonda_alem_do_maior_numero() {
    let (_, acao) = EtapaUltimo::AncoraPrimaria.receber_ancora(Some(i32::MAX));
    assert_eq!(acao, AcaoUltimo::Concluir(i32::MAX));
}
