//! Decisions of the result fetcher.
//!
//! The caller makes the requests; this module turns each answer into a
//! validated result, decides which source to ask next, and finds the number
//! of the latest draw from an anchor and at most two forward probes.
use vstd::prelude::*;
use vstd::string::StrSliceExecFns;
use crate::modelos::{Erro, Invalido, Resultado, ResultadoV};

verus! {

/// One tier of the payout table as a source sends it. The prize is in cents.
#[derive(Debug, Clone)]
pub struct FaixaPremio {
    pub descricao_faixa: String,
    pub numero_de_ganhadores: i32,
    pub valor_premio_centavos: u64,
}

/// Mathematical view of a [`FaixaPremio`].
pub ghost struct FaixaPremioV {
    pub descricao_faixa: Seq<char>,
    pub numero_de_ganhadores: i32,
    pub valor_premio_centavos: u64,
}

impl View for FaixaPremio {
    type V = FaixaPremioV;

    open spec fn view(&self) -> FaixaPremioV {
        FaixaPremioV {
            descricao_faixa: self.descricao_faixa@,
            numero_de_ganhadores: self.numero_de_ganhadores,
            valor_premio_centavos: self.valor_premio_centavos,
        }
    }
}

/// The views of a payout table.
pub open spec fn vistas_faixas(faixas: Seq<FaixaPremio>) -> Seq<FaixaPremioV> {
    faixas.map_values(|f: FaixaPremio| f@)
}

/// The characters of each text.
pub open spec fn textos(s: Seq<String>) -> Seq<Seq<char>> {
    s.map_values(|t: String| t@)
}

/// A decoded answer of a result source, before validation. The drawn
/// numbers come as text, such as `"07"`.
#[derive(Debug, Clone)]
pub struct RespostaApi {
    pub numero: i32,
    pub data_apuracao: String,
    pub dezenas: Vec<String>,
    pub acumulado: bool,
    pub faixas: Vec<FaixaPremio>,
}

/// Mathematical view of a [`RespostaApi`].
pub ghost struct RespostaApiV {
    pub numero: i32,
    pub data_apuracao: Seq<char>,
    pub dezenas: Seq<Seq<char>>,
    pub acumulado: bool,
    pub faixas: Seq<FaixaPremioV>,
}

impl View for RespostaApi {
    type V = RespostaApiV;

    open spec fn view(&self) -> RespostaApiV {
        RespostaApiV {
            numero: self.numero,
            data_apuracao: self.data_apuracao@,
            dezenas: textos(self.dezenas@),
            acumulado: self.acumulado,
            faixas: vistas_faixas(self.faixas@),
        }
    }
}

/// Whether every character of `s` is an ASCII decimal digit.
pub open spec fn so_digitos(s: Seq<char>) -> bool {
    forall|i: int| 0 <= i < s.len() ==> '0' <= #[trigger] s[i] <= '9'
}

/// The value of a string of decimal digits.
pub open spec fn valor_digitos(s: Seq<char>) -> int
    decreases s.len(),
{
    if s.len() == 0 {
        0
    } else {
        valor_digitos(s.drop_last()) * 10 + (s.last() as int - '0' as int)
    }
}

/// The integer that `s` writes: an optional sign followed by at least one
/// decimal digit.
pub open spec fn valor_inteiro(s: Seq<char>) -> Option<int> {
    if s.len() > 0 && (s[0] == '+' || s[0] == '-') {
        let d = s.drop_first();
        if d.len() > 0 && so_digitos(d) {
            Some(
                if s[0] == '-' {
                    -valor_digitos(d)
                } else {
                    valor_digitos(d)
                },
            )
        } else {
            None
        }
    } else if s.len() > 0 && so_digitos(s) {
        Some(valor_digitos(s))
    } else {
        None
    }
}

/// The `i32` that `s` writes, if it writes one in range.
pub open spec fn inteiro_i32(s: Seq<char>) -> Option<i32> {
    match valor_inteiro(s) {
        Some(v) => if i32::MIN <= v <= i32::MAX {
            Some(v as i32)
        } else {
            None
        },
        None => None,
    }
}

/// Relies on `str::parse::<i32>` (std's `FromStr` for `i32`): it accepts an
/// optional `+` or `-` followed by one or more ASCII digits whose value fits
/// in `i32`, and refuses anything else.
#[verifier::external_body]
fn ler_i32(s: &str) -> (r: Option<i32>)
    ensures
        r == inteiro_i32(s@),
{
    s.parse::<i32>().ok()
}

/// The numbers that the texts of `dezenas` write, in order; a text that
/// writes no `i32` is left out.
pub open spec fn dezenas_lidas(dezenas: Seq<Seq<char>>) -> Seq<i32>
    decreases dezenas.len(),
{
    if dezenas.len() == 0 {
        Seq::empty()
    } else {
        let antes = dezenas_lidas(dezenas.drop_last());
        match inteiro_i32(dezenas.last()) {
            Some(n) => antes.push(n),
            None => antes,
        }
    }
}

/// Parses the drawn numbers of a payload, leaving out each text that is not
/// a number.
pub fn converter_dezenas(dezenas: &Vec<String>) -> (r: Vec<i32>)
    ensures
        r@ == dezenas_lidas(textos(dezenas@)),
{
    let ghost lidos = textos(dezenas@);
    let mut r: Vec<i32> = Vec::new();
    let mut i: usize = 0;
    while i < dezenas.len()
        invariant
            i <= dezenas@.len(),
            lidos == textos(dezenas@),
            r@ == dezenas_lidas(lidos.subrange(0, i as int)),
        decreases dezenas@.len() - i,
    {
        let lido = ler_i32(dezenas[i].as_str());
        proof {
            let prefixo = lidos.subrange(0, i + 1);
            assert(prefixo.drop_last() =~= lidos.subrange(0, i as int));
            assert(prefixo.last() == dezenas[i as int]@);
        }
        match lido {
            Some(n) => r.push(n),
            None => {},
        }
        i = i + 1;
    }
    proof {
        assert(lidos.subrange(0, i as int) =~= lidos);
    }
    r
}

/// Whether a tier's description marks the top tier: it holds a `6`.
pub open spec fn faixa_de_seis(descricao: Seq<char>) -> bool {
    descricao.contains('6')
}

/// The first tier at position `i` or later whose description holds a `6`.
pub open spec fn faixa_de_seis_desde(faixas: Seq<FaixaPremioV>, i: int) -> Option<int>
    decreases faixas.len() - i,
{
    if i < 0 || i >= faixas.len() {
        None
    } else if faixa_de_seis(faixas[i].descricao_faixa) {
        Some(i)
    } else {
        faixa_de_seis_desde(faixas, i + 1)
    }
}

/// The tier that `faixa_de_seis_desde` finds lies at `i` or later, in the
/// table, and its description holds a `6`.
pub proof fn lema_faixa_de_seis_desde(faixas: Seq<FaixaPremioV>, i: int)
    requires
        0 <= i,
    ensures
        match faixa_de_seis_desde(faixas, i) {
            Some(j) => i <= j < faixas.len() && faixa_de_seis(faixas[j].descricao_faixa),
            None => true,
        },
    decreases faixas.len() - i,
{
    if i < faixas.len() && !faixa_de_seis(faixas[i].descricao_faixa) {
        lema_faixa_de_seis_desde(faixas, i + 1);
    }
}

/// Whether the text `s` holds the character `c`.
fn contem_caractere(s: &str, c: char) -> (r: bool)
    ensures
        r == s@.contains(c),
{
    let n = s.unicode_len();
    let mut i: usize = 0;
    while i < n
        invariant
            n == s@.len(),
            i <= n,
            forall|j: int| 0 <= j < i ==> s@[j] != c,
        decreases n - i,
    {
        if s.get_char(i) == c {
            return true;
        }
        i = i + 1;
    }
    false
}

/// Position of the top tier in the payout table: the first tier whose
/// description holds a `6`.
pub fn faixa_principal(faixas: &Vec<FaixaPremio>) -> (r: Option<usize>)
    ensures
        r == (match faixa_de_seis_desde(vistas_faixas(faixas@), 0) {
            Some(i) => Some(i as usize),
            None => None::<usize>,
        }),
        r is Some ==> r->0 < faixas@.len(),
{
    let ghost vistas = vistas_faixas(faixas@);
    let mut i: usize = 0;
    while i < faixas.len()
        invariant
            i <= faixas@.len(),
            vistas == vistas_faixas(faixas@),
            faixa_de_seis_desde(vistas, 0) == faixa_de_seis_desde(vistas, i as int),
        decreases faixas@.len() - i,
    {
        proof {
            assert(vistas[i as int] == faixas[i as int]@);
        }
        if contem_caractere(faixas[i].descricao_faixa.as_str(), '6') {
            return Some(i);
        }
        i = i + 1;
    }
    None
}

/// The result that a payload stands for, if it passes validation: it must
/// hold exactly six drawn numbers after parsing. The prize and the number of
/// winners come from the top tier, when the payout table has one.
pub open spec fn resultado_de(p: RespostaApiV) -> Option<ResultadoV> {
    let numeros = dezenas_lidas(p.dezenas);
    if numeros.len() == 6 {
        let faixa = faixa_de_seis_desde(p.faixas, 0);
        Some(
            ResultadoV {
                concurso: p.numero,
                numeros_sorteados: numeros,
                data_sorteio: p.data_apuracao,
                acumulado: p.acumulado,
                valor_premio_centavos: match faixa {
                    Some(i) => Some(p.faixas[i].valor_premio_centavos),
                    None => None,
                },
                ganhadores: match faixa {
                    Some(i) => Some(p.faixas[i].numero_de_ganhadores),
                    None => None,
                },
            },
        )
    } else {
        None
    }
}

/// Validates a payload and turns it into a result. A payload with fewer or
/// more than six numbers after parsing is refused, never cut down.
pub fn montar_resultado(resposta: RespostaApi) -> (r: Result<Resultado, Erro>)
    ensures
        match resultado_de(resposta@) {
            Some(v) => r is Ok && r->Ok_0@ == v,
            None => r == Err::<Resultado, Erro>(
                Erro::Validacao(
                    Invalido::QuantidadeDezenas(dezenas_lidas(resposta@.dezenas).len() as usize),
                ),
            ),
        },
{
    let ghost vista = resposta@;
    proof {
        lema_faixa_de_seis_desde(vista.faixas, 0);
    }
    let numeros = converter_dezenas(&resposta.dezenas);
    if numeros.len() != 6 {
        return Err(Erro::Validacao(Invalido::QuantidadeDezenas(numeros.len())));
    }
    let (valor_premio_centavos, ganhadores) = match faixa_principal(&resposta.faixas) {
        Some(i) => {
            proof {
                assert(vista.faixas[i as int] == resposta.faixas[i as int]@);
            }
            (
                Some(resposta.faixas[i].valor_premio_centavos),
                Some(resposta.faixas[i].numero_de_ganhadores),
            )
        },
        None => (None, None),
    };
    let r = Resultado {
        concurso: resposta.numero,
        numeros_sorteados: numeros,
        data_sorteio: resposta.data_apuracao,
        acumulado: resposta.acumulado,
        valor_premio_centavos,
        ganhadores,
    };
    Ok(r)
}

/// A source of results.
#[derive(Debug, Clone, Copy, PartialEq, Eq, Structural)]
pub enum Fonte {
    /// The lottery authority's own service.
    Primaria,
    /// A community mirror with payloads of the same shape.
    Espelho,
}

/// Where the fetch of one draw stands.
#[derive(Debug, Clone, Copy, PartialEq, Eq, Structural)]
pub enum EtapaBusca {
    /// Waiting for the answer of the primary source about this draw.
    Primaria(i32),
    /// Waiting for the answer of the mirror about this draw.
    Espelho(i32),
    /// The fetch is over.
    Concluida,
}

/// What the caller of a fetch is to do next.
#[derive(Debug)]
pub enum AcaoBusca {
    /// Ask this source for this draw once, and hand back what came.
    Consultar(Fonte, i32),
    /// Hand this outcome to whoever asked; the fetch is over.
    Concluir(Result<Resultado, Erro>),
}

/// The validated result that an answer stands for, if any. A failed request
/// stands for none.
pub open spec fn resultado_aceito(resposta: Result<RespostaApi, Erro>) -> Option<ResultadoV> {
    match resposta {
        Ok(p) => resultado_de(p@),
        Err(_) => None,
    }
}

/// Whether `acao` delivers a result whose view is `v`.
pub open spec fn entrega(acao: AcaoBusca, v: ResultadoV) -> bool {
    match acao {
        AcaoBusca::Concluir(Ok(r)) => r@ == v,
        _ => false,
    }
}

impl EtapaBusca {
    /// Starts the fetch of the draw `concurso`: the primary source is asked first.
    pub fn iniciar(concurso: i32) -> (r: (EtapaBusca, AcaoBusca))
        ensures
            r.0 == EtapaBusca::Primaria(concurso),
            r.1 == AcaoBusca::Consultar(Fonte::Primaria, concurso),
    {
        (EtapaBusca::Primaria(concurso), AcaoBusca::Consultar(Fonte::Primaria, concurso))
    }

    /// Takes the answer of the source that was asked. A valid result ends the
    /// fetch. A failure of the primary source, a payload that does not
    /// decode, or one without exactly six numbers, sends the caller to the
    /// mirror; a failure there ends the fetch with [`Erro::NaoEncontrado`].
    /// Each source is asked once.
    pub fn receber(self, resposta: Result<RespostaApi, Erro>) -> (r: (EtapaBusca, AcaoBusca))
        requires
            !(self is Concluida),
        ensures
            match (self, resultado_aceito(resposta)) {
                (_, Some(v)) => r.0 == EtapaBusca::Concluida && entrega(r.1, v),
                (EtapaBusca::Primaria(c), None) => r.0 == EtapaBusca::Espelho(c) && r.1
                    == AcaoBusca::Consultar(Fonte::Espelho, c),
                (EtapaBusca::Espelho(c), None) => r.0 == EtapaBusca::Concluida && r.1
                    == AcaoBusca::Concluir(Err(Erro::NaoEncontrado(c))),
                _ => true,
            },
    {
        let validado = match resposta {
            Ok(p) => match montar_resultado(p) {
                Ok(res) => Some(res),
                Err(_) => None,
            },
            Err(_) => None,
        };
        match validado {
            Some(res) => (EtapaBusca::Concluida, AcaoBusca::Concluir(Ok(res))),
            None => match self {
                EtapaBusca::Primaria(c) => (
                    EtapaBusca::Espelho(c),
                    AcaoBusca::Consultar(Fonte::Espelho, c),
                ),
                EtapaBusca::Espelho(c) => (
                    EtapaBusca::Concluida,
                    AcaoBusca::Concluir(Err(Erro::NaoEncontrado(c))),
                ),
                EtapaBusca::Concluida => (EtapaBusca::Concluida, AcaoBusca::Concluir(
                    Err(Erro::NaoEncontrado(0)),
                )),
            },
        }
    }
}

/// The draw number used as the anchor when neither source gives one.
pub const CONCURSO_RESERVA: i32 = 2650;

/// Most forward probes made past the anchor.
pub const MAX_SONDAGENS: u8 = 2;

/// Where the search for the latest draw stands.
#[derive(Debug, Clone, Copy, PartialEq, Eq, Structural)]
pub enum EtapaUltimo {
    /// Waiting for the primary source's latest draw number.
    AncoraPrimaria,
    /// Waiting for the mirror's latest draw number.
    AncoraEspelho,
    /// Waiting to learn whether the draw after `ancora` exists; `feitas`
    /// probes came back found before this one.
    Sondagem { ancora: i32, feitas: u8 },
    /// The search is over with this draw number.
    Concluida(i32),
}

/// What the caller of the search for the latest draw is to do next.
#[derive(Debug, Clone, Copy, PartialEq, Eq, Structural)]
pub enum AcaoUltimo {
    /// Ask this source for its latest draw number.
    ConsultarAncora(Fonte),
    /// Fetch this draw, with the fallback of [`EtapaBusca`], and tell
    /// whether it was found.
    BuscarConcurso(i32),
    /// This is the latest draw number; the search is over.
    Concluir(i32),
}

/// A probe is pending only while probes are left and a next draw number exists.
pub open spec fn etapa_valida(e: EtapaUltimo) -> bool {
    match e {
        EtapaUltimo::Sondagem { ancora, feitas } => feitas < MAX_SONDAGENS && ancora < i32::MAX,
        _ => true,
    }
}

/// With the anchor `ancora` and `feitas` probes behind: probe the next draw,
/// unless the probes are spent or no next draw number exists.
pub open spec fn sondar(ancora: i32, feitas: u8) -> (EtapaUltimo, AcaoUltimo) {
    if feitas < MAX_SONDAGENS && ancora < i32::MAX {
        (EtapaUltimo::Sondagem { ancora, feitas }, AcaoUltimo::BuscarConcurso((ancora + 1) as i32))
    } else {
        (EtapaUltimo::Concluida(ancora), AcaoUltimo::Concluir(ancora))
    }
}

/// The step taken on an anchor answer: `Some` number, or `None` for a failure.
pub open spec fn passo_ancora(e: EtapaUltimo, ancora: Option<i32>) -> (EtapaUltimo, AcaoUltimo) {
    match (e, ancora) {
        (EtapaUltimo::AncoraPrimaria, Some(n)) => sondar(n, 0),
        (EtapaUltimo::AncoraPrimaria, None) => (
            EtapaUltimo::AncoraEspelho,
            AcaoUltimo::ConsultarAncora(Fonte::Espelho),
        ),
        (EtapaUltimo::AncoraEspelho, Some(n)) => sondar(n, 0),
        (EtapaUltimo::AncoraEspelho, None) => sondar(CONCURSO_RESERVA, 0),
        _ => (e, AcaoUltimo::ConsultarAncora(Fonte::Primaria)),
    }
}

/// The step taken on a probe answer: whether the draw after the anchor was found.
pub open spec fn passo_sondagem(e: EtapaUltimo, encontrado: bool) -> (EtapaUltimo, AcaoUltimo) {
    match e {
        EtapaUltimo::Sondagem { ancora, feitas } => if encontrado {
            sondar((ancora + 1) as i32, (feitas + 1) as u8)
        } else {
            (EtapaUltimo::Concluida(ancora), AcaoUltimo::Concluir(ancora))
        },
        _ => (e, AcaoUltimo::ConsultarAncora(Fonte::Primaria)),
    }
}

impl EtapaUltimo {
    /// Starts the search: the primary source is asked for its latest draw.
    pub fn iniciar() -> (r: (EtapaUltimo, AcaoUltimo))
        ensures
            r == (EtapaUltimo::AncoraPrimaria, AcaoUltimo::ConsultarAncora(Fonte::Primaria)),
            etapa_valida(r.0),
    {
        (EtapaUltimo::AncoraPrimaria, AcaoUltimo::ConsultarAncora(Fonte::Primaria))
    }

    fn sondar(ancora: i32, feitas: u8) -> (r: (EtapaUltimo, AcaoUltimo))
        ensures
            r == sondar(ancora, feitas),
            etapa_valida(r.0),
    {
        if feitas < MAX_SONDAGENS && ancora < i32::MAX {
            (EtapaUltimo::Sondagem { ancora, feitas }, AcaoUltimo::BuscarConcurso(ancora + 1))
        } else {
            (EtapaUltimo::Concluida(ancora), AcaoUltimo::Concluir(ancora))
        }
    }

    /// Takes a source's answer about the latest draw: a number starts the
    /// probes from it; a failure of the primary source sends the caller to
    /// the mirror, and one of the mirror falls back to [`CONCURSO_RESERVA`].
    pub fn receber_ancora(self, ancora: Option<i32>) -> (r: (EtapaUltimo, AcaoUltimo))
        requires
            self is AncoraPrimaria || self is AncoraEspelho,
        ensures
            r == passo_ancora(self, ancora),
            etapa_valida(r.0),
    {
        match ancora {
            Some(n) => EtapaUltimo::sondar(n, 0),
            None => match self {
                EtapaUltimo::AncoraPrimaria => (
                    EtapaUltimo::AncoraEspelho,
                    AcaoUltimo::ConsultarAncora(Fonte::Espelho),
                ),
                _ => EtapaUltimo::sondar(CONCURSO_RESERVA, 0),
            },
        }
    }

    /// Takes the outcome of a probe: a found draw becomes the anchor and,
    /// while probes are left, the next one is probed; a missing draw ends the
    /// search with the anchor.
    pub fn receber_sondagem(self, encontrado: bool) -> (r: (EtapaUltimo, AcaoUltimo))
        requires
            self is Sondagem,
            etapa_valida(self),
        ensures
            r == passo_sondagem(self, encontrado),
            etapa_valida(r.0),
    {
        match self {
            EtapaUltimo::Sondagem { ancora, feitas } => if encontrado {
                EtapaUltimo::sondar(ancora + 1, feitas + 1)
            } else {
                (EtapaUltimo::Concluida(ancora), AcaoUltimo::Concluir(ancora))
            },
            _ => (self, AcaoUltimo::ConsultarAncora(Fonte::Primaria)),
        }
    }
}

/// When neither source gives an anchor, the search never fails: it probes
/// from the fallback draw number and ends on it, or on one of the two draws
/// after it that the probes found.
pub proof fn lema_reserva_sem_ancoras(primeira_sonda: bool, segunda_sonda: bool)
    ensures
        passo_ancora(EtapaUltimo::AncoraPrimaria, None) == (
            EtapaUltimo::AncoraEspelho,
            AcaoUltimo::ConsultarAncora(Fonte::Espelho),
        ),
        passo_ancora(EtapaUltimo::AncoraEspelho, None) == (
            EtapaUltimo::Sondagem { ancora: CONCURSO_RESERVA, feitas: 0 },
            AcaoUltimo::BuscarConcurso((CONCURSO_RESERVA + 1) as i32),
        ),
        !primeira_sonda ==> passo_sondagem(
            EtapaUltimo::Sondagem { ancora: CONCURSO_RESERVA, feitas: 0 },
            primeira_sonda,
        ) == (EtapaUltimo::Concluida(CONCURSO_RESERVA), AcaoUltimo::Concluir(CONCURSO_RESERVA)),
        primeira_sonda ==> passo_sondagem(
            EtapaUltimo::Sondagem { ancora: CONCURSO_RESERVA, feitas: 0 },
            primeira_sonda,
        ) == (
            EtapaUltimo::Sondagem { ancora: (CONCURSO_RESERVA + 1) as i32, feitas: 1 },
            AcaoUltimo::BuscarConcurso((CONCURSO_RESERVA + 2) as i32),
        ),
        passo_sondagem(
            EtapaUltimo::Sondagem { ancora: (CONCURSO_RESERVA + 1) as i32, feitas: 1 },
            segunda_sonda,
        ) == (if segunda_sonda {
            (EtapaUltimo::Concluida((CONCURSO_RESERVA + 2) as i32), AcaoUltimo::Concluir((CONCURSO_RESERVA + 2) as i32))
        } else {
            (EtapaUltimo::Concluida((CONCURSO_RESERVA + 1) as i32), AcaoUltimo::Concluir((CONCURSO_RESERVA + 1) as i32))
        }),
{
}

} // verus!
