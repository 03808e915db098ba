//! The store of bets, draw results and the links between them.
//!
//! Bets are kept in the order of their identifiers, which start at one and
//! grow by one with each bet; a bet is never removed, only made inactive.
//! Results are keyed by draw number. The links of a bet, from draw number to
//! match count, are kept with the bet.
use std::collections::HashMap;
use vstd::prelude::*;
use crate::acertos::{calcular_acertos, contagem_acertos};
use crate::modelos::{Aposta, ApostaResultado, ApostaV, Resultado, ResultadoV};

verus! {

broadcast use vstd::std_specs::hash::group_hash_axioms;

/// Fewest numbers a bet may hold.
pub const MIN_NUMEROS: usize = 6;

/// Most numbers a bet may hold.
pub const MAX_NUMEROS: usize = 20;

/// Most draws a bet may stay active for.
pub const MAX_CONCURSOS: i32 = 12;

/// Mathematical view of a stored bet.
pub ghost struct RegistroV {
    pub id: i64,
    pub numeros: Seq<i32>,
    pub concurso_inicial: i32,
    pub quantidade_concursos: i32,
    pub data_criacao: Seq<char>,
    pub ativa: bool,
    /// Links of the bet: draw number to match count.
    pub acertos: Map<i32, i32>,
}

/// Mathematical view of the store.
pub ghost struct BancoV {
    /// Bets in the order of their identifiers.
    pub apostas: Seq<RegistroV>,
    /// Results by draw number.
    pub resultados: Map<i32, ResultadoV>,
}

/// Whether `concurso` lies in the window of draws that the bet plays.
pub open spec fn janela_contem(r: RegistroV, concurso: i32) -> bool {
    r.concurso_inicial <= concurso < r.concurso_inicial + r.quantidade_concursos
}

/// The bounds that a bet is submitted with.
pub open spec fn limites_aposta(
    numeros: Seq<i32>,
    concurso_inicial: i32,
    quantidade_concursos: i32,
) -> bool {
    &&& MIN_NUMEROS <= numeros.len() <= MAX_NUMEROS
    &&& 0 < concurso_inicial
    &&& 1 <= quantidade_concursos <= MAX_CONCURSOS
    &&& concurso_inicial + quantidade_concursos <= i32::MAX
}

/// A stored bet keeps its bounds, and links only draws of its window.
pub open spec fn registro_valido(r: RegistroV) -> bool {
    &&& limites_aposta(r.numeros, r.concurso_inicial, r.quantidade_concursos)
    &&& forall|c: i32| #[trigger] r.acertos.contains_key(c) ==> janela_contem(r, c)
}

/// Identifiers run from one in order, every bet is valid, and each result is
/// keyed by its own draw number.
pub open spec fn banco_valido(b: BancoV) -> bool {
    &&& forall|i: int|
        0 <= i < b.apostas.len() ==> (#[trigger] b.apostas[i]).id == i + 1 && registro_valido(
            b.apostas[i],
        )
    &&& forall|c: i32| #[trigger]
        b.resultados.contains_key(c) ==> b.resultados[c].concurso == c
}

/// The store after a bet is added: it comes last, active, with the next
/// identifier and no links.
pub open spec fn apos_adicionar(
    b: BancoV,
    numeros: Seq<i32>,
    concurso_inicial: i32,
    quantidade_concursos: i32,
    data_criacao: Seq<char>,
) -> BancoV {
    BancoV {
        apostas: b.apostas.push(
            RegistroV {
                id: (b.apostas.len() + 1) as i64,
                numeros,
                concurso_inicial,
                quantidade_concursos,
                data_criacao,
                ativa: true,
                acertos: Map::empty(),
            },
        ),
        resultados: b.resultados,
    }
}

/// The store after the bet `id` is made inactive; an unknown identifier
/// changes nothing.
pub open spec fn apos_excluir(b: BancoV, id: i64) -> BancoV {
    if 1 <= id <= b.apostas.len() {
        BancoV {
            apostas: b.apostas.update(id - 1, RegistroV { ativa: false, ..b.apostas[id - 1] }),
            resultados: b.resultados,
        }
    } else {
        b
    }
}

/// The store after a result is stored: it replaces any result of its draw.
pub open spec fn apos_salvar(b: BancoV, r: ResultadoV) -> BancoV {
    BancoV { apostas: b.apostas, resultados: b.resultados.insert(r.concurso, r) }
}

/// A bet after the draw `concurso` with numbers `sorteados` is scored: an
/// active bet whose window holds the draw gets its link set to the match
/// count; any other bet is left as it is.
pub open spec fn registro_apos_processar(
    r: RegistroV,
    concurso: i32,
    sorteados: Seq<i32>,
) -> RegistroV {
    if r.ativa && janela_contem(r, concurso) {
        RegistroV {
            acertos: r.acertos.insert(concurso, contagem_acertos(r.numeros, sorteados) as i32),
            ..r
        }
    } else {
        r
    }
}

/// The store after the draw `concurso` is scored against every bet.
pub open spec fn apos_processar(b: BancoV, concurso: i32, sorteados: Seq<i32>) -> BancoV {
    BancoV {
        apostas: b.apostas.map_values(
            |r: RegistroV| registro_apos_processar(r, concurso, sorteados),
        ),
        resultados: b.resultados,
    }
}

/// The store after a bet read back from storage is restored: it comes last,
/// with the next identifier, the given state and no links.
pub open spec fn apos_restaurar_aposta(
    b: BancoV,
    numeros: Seq<i32>,
    concurso_inicial: i32,
    quantidade_concursos: i32,
    data_criacao: Seq<char>,
    ativa: bool,
) -> BancoV {
    BancoV {
        apostas: b.apostas.push(
            RegistroV {
                id: (b.apostas.len() + 1) as i64,
                numeros,
                concurso_inicial,
                quantidade_concursos,
                data_criacao,
                ativa,
                acertos: Map::empty(),
            },
        ),
        resultados: b.resultados,
    }
}

/// Whether a link read back from storage can be restored: its bet is stored
/// and its draw lies in the bet's window.
pub open spec fn vinculo_aceito(b: BancoV, v: ApostaResultado) -> bool {
    1 <= v.aposta_id <= b.apostas.len() && janela_contem(b.apostas[v.aposta_id - 1], v.concurso)
}

/// The store after an accepted link is restored.
pub open spec fn apos_restaurar_vinculo(b: BancoV, v: ApostaResultado) -> BancoV {
    BancoV {
        apostas: b.apostas.update(
            v.aposta_id - 1,
            RegistroV {
                acertos: b.apostas[v.aposta_id - 1].acertos.insert(v.concurso, v.acertos),
                ..b.apostas[v.aposta_id - 1]
            },
        ),
        resultados: b.resultados,
    }
}

/// The active bets of `s`, last first.
pub open spec fn ativas_recentes(s: Seq<RegistroV>) -> Seq<RegistroV>
    decreases s.len(),
{
    if s.len() == 0 {
        Seq::empty()
    } else {
        let resto = ativas_recentes(s.drop_first());
        if s[0].ativa {
            resto.push(s[0])
        } else {
            resto
        }
    }
}

/// The numbers drawn in each draw that the bet is linked to and whose
/// result is stored.
pub open spec fn resultados_da_aposta(r: RegistroV, resultados: Map<i32, ResultadoV>) -> Map<
    i32,
    Seq<i32>,
> {
    Map::new(
        |c: i32| r.acertos.contains_key(c) && resultados.contains_key(c),
        |c: i32| resultados[c].numeros_sorteados,
    )
}

/// How a stored bet is shown to its owner.
pub open spec fn exibicao(r: RegistroV, resultados: Map<i32, ResultadoV>) -> ApostaV {
    ApostaV {
        id: r.id,
        numeros: r.numeros,
        concurso_inicial: r.concurso_inicial,
        quantidade_concursos: r.quantidade_concursos,
        data_criacao: r.data_criacao,
        ativa: r.ativa,
        acertos: r.acertos,
        resultados_concursos: resultados_da_aposta(r, resultados),
    }
}

/// Storing a result twice is the same as storing it once, and storing a
/// result equal to the one already held for its draw changes nothing.
pub proof fn lema_salvar_idempotente(b: BancoV, r: ResultadoV)
    ensures
        apos_salvar(apos_salvar(b, r), r) == apos_salvar(b, r),
        b.resultados.contains_key(r.concurso) && b.resultados[r.concurso] == r ==> apos_salvar(b, r)
            == b,
{
    assert(apos_salvar(apos_salvar(b, r), r).resultados =~= apos_salvar(b, r).resultados);
    if b.resultados.contains_key(r.concurso) && b.resultados[r.concurso] == r {
        assert(apos_salvar(b, r).resultados =~= b.resultados);
    }
}

/// Scoring a draw changes only the links of the active bets whose window
/// holds it, each to the match count; every other bet, and every other link,
/// stays as it was. Scoring the same draw again changes nothing more.
pub proof fn lema_processar_so_na_janela(b: BancoV, concurso: i32, sorteados: Seq<i32>)
    ensures
        apos_processar(b, concurso, sorteados).apostas.len() == b.apostas.len(),
        apos_processar(b, concurso, sorteados).resultados == b.resultados,
        forall|k: int|
            0 <= k < b.apostas.len() && !(b.apostas[k].ativa && janela_contem(b.apostas[k], concurso))
                ==> #[trigger] apos_processar(b, concurso, sorteados).apostas[k] == b.apostas[k],
        forall|k: int|
            0 <= k < b.apostas.len() && b.apostas[k].ativa && janela_contem(b.apostas[k], concurso)
                ==> #[trigger] apos_processar(b, concurso, sorteados).apostas[k].acertos == b.apostas[k].acertos.insert(
                concurso,
                contagem_acertos(b.apostas[k].numeros, sorteados) as i32,
            ),
        apos_processar(apos_processar(b, concurso, sorteados), concurso, sorteados) == apos_processar(
            b,
            concurso,
            sorteados,
        ),
{
    let uma = apos_processar(b, concurso, sorteados);
    let duas = apos_processar(uma, concurso, sorteados);
    assert forall|k: int| 0 <= k < b.apostas.len() implies #[trigger] duas.apostas[k] == uma.apostas[k] by {
        let r = b.apostas[k];
        if r.ativa && janela_contem(r, concurso) {
            assert(duas.apostas[k].acertos =~= uma.apostas[k].acertos);
        }
    }
    assert(duas.apostas =~= uma.apostas);
}

/// Every bet that `ativas_recentes` gives is an active bet of its argument.
pub proof fn lema_ativas_recentes_membros(s: Seq<RegistroV>)
    ensures
        forall|k: int|
            0 <= k < ativas_recentes(s).len() ==> (#[trigger] ativas_recentes(s)[k]).ativa
                && s.contains(ativas_recentes(s)[k]),
    decreases s.len(),
{
    if s.len() > 0 {
        let resto = s.drop_first();
        lema_ativas_recentes_membros(resto);
        assert forall|k: int| 0 <= k < ativas_recentes(s).len() implies (#[trigger] ativas_recentes(
            s,
        )[k]).ativa && s.contains(ativas_recentes(s)[k]) by {
            if k < ativas_recentes(resto).len() {
                let x = ativas_recentes(resto)[k];
                assert(ativas_recentes(s)[k] == x);
                let j = choose|j: int| 0 <= j < resto.len() && resto[j] == x;
                assert(s[j + 1] == x);
            } else {
                assert(ativas_recentes(s)[k] == s[0]);
            }
        }
    }
}

/// An inactive bet is never listed.
pub proof fn lema_inativa_nao_listada(b: BancoV, id: i64)
    requires
        banco_valido(b),
        1 <= id <= b.apostas.len(),
        !b.apostas[id - 1].ativa,
    ensures
        forall|k: int|
            0 <= k < ativas_recentes(b.apostas).len() ==> (#[trigger] ativas_recentes(
                b.apostas,
            )[k]).id != id,
{
    lema_ativas_recentes_membros(b.apostas);
    assert forall|k: int| 0 <= k < ativas_recentes(b.apostas).len() implies (#[trigger] ativas_recentes(
        b.apostas,
    )[k]).id != id by {
        let x = ativas_recentes(b.apostas)[k];
        let j = choose|j: int| 0 <= j < b.apostas.len() && b.apostas[j] == x;
        assert(b.apostas[j].id == j + 1);
    }
}

/// Once made inactive, a bet stays inactive with the same links through
/// every operation that changes the store: adding a bet, storing a result,
/// scoring a draw and making any bet inactive. Together with
/// `lema_inativa_nao_listada`, a bet made inactive is never listed again,
/// while its links stay as they were.
pub proof fn lema_inativa_permanece(
    b: BancoV,
    id: i64,
    numeros: Seq<i32>,
    concurso_inicial: i32,
    quantidade_concursos: i32,
    data_criacao: Seq<char>,
    r: ResultadoV,
    concurso: i32,
    sorteados: Seq<i32>,
    outro_id: i64,
)
    requires
        1 <= id <= b.apostas.len(),
        !b.apostas[id - 1].ativa,
    ensures
        ({
            let depois = apos_adicionar(
                b,
                numeros,
                concurso_inicial,
                quantidade_concursos,
                data_criacao,
            );
            !depois.apostas[id - 1].ativa && depois.apostas[id - 1].acertos == b.apostas[id
                - 1].acertos
        }),
        !apos_salvar(b, r).apostas[id - 1].ativa,
        apos_salvar(b, r).apostas[id - 1].acertos == b.apostas[id - 1].acertos,
        apos_processar(b, concurso, sorteados).apostas[id - 1] == b.apostas[id - 1],
        !apos_excluir(b, outro_id).apostas[id - 1].ativa,
        apos_excluir(b, outro_id).apostas[id - 1].acertos == b.apostas[id - 1].acertos,
{
}

/// After a bet is made inactive it is not listed, while its links stay as
/// they were.
pub proof fn lema_excluida_nao_listada(b: BancoV, id: i64)
    requires
        banco_valido(b),
        1 <= id <= b.apostas.len(),
    ensures
        banco_valido(apos_excluir(b, id)),
        !apos_excluir(b, id).apostas[id - 1].ativa,
        forall|k: int|
            0 <= k < ativas_recentes(apos_excluir(b, id).apostas).len() ==> (#[trigger] ativas_recentes(
                apos_excluir(b, id).apostas,
            )[k]).id != id,
        apos_excluir(b, id).apostas[id - 1].acertos == b.apostas[id - 1].acertos,
{
    let depois = apos_excluir(b, id);
    assert forall|i: int| 0 <= i < depois.apostas.len() implies (#[trigger] depois.apostas[i]).id == i + 1
        && registro_valido(depois.apostas[i]) by {
        assert(b.apostas[i].id == i + 1 && registro_valido(b.apostas[i]));
        assert forall|c: i32| #[trigger] depois.apostas[i].acertos.contains_key(c) implies janela_contem(
            depois.apostas[i],
            c,
        ) by {
            assert(b.apostas[i].acertos.contains_key(c));
        }
    }
    lema_inativa_nao_listada(depois, id);
}

struct Registro {
    id: i64,
    numeros: Vec<i32>,
    concurso_inicial: i32,
    quantidade_concursos: i32,
    data_criacao: String,
    ativa: bool,
    acertos: HashMap<i32, i32>,
}

impl View for Registro {
    type V = RegistroV;

    closed spec fn view(&self) -> RegistroV {
        RegistroV {
            id: self.id,
            numeros: self.numeros@,
            concurso_inicial: self.concurso_inicial,
            quantidade_concursos: self.quantidade_concursos,
            data_criacao: self.data_criacao@,
            ativa: self.ativa,
            acertos: self.acertos@,
        }
    }
}

/// The store. A caller that shares it between threads holds it under one
/// lock, so that each operation runs alone.
pub struct Database {
    apostas: Vec<Registro>,
    resultados: HashMap<i32, Resultado>,
}

impl View for Database {
    type V = BancoV;

    closed spec fn view(&self) -> BancoV {
        BancoV {
            apostas: self.apostas@.map_values(|r: Registro| r@),
            resultados: self.resultados@.map_values(|r: Resultado| r@),
        }
    }
}

impl Database {
    /// Whether the store holds its invariant.
    pub open spec fn bem_formado(&self) -> bool {
        banco_valido(self@)
    }

    /// An empty store.
    pub fn new() -> (r: Database)
        ensures
            r.bem_formado(),
            r@.apostas.len() == 0,
            r@.resultados == Map::<i32, ResultadoV>::empty(),
    {
        let r = Database { apostas: Vec::new(), resultados: HashMap::new() };
        proof {
            assert(r@.resultados =~= Map::<i32, ResultadoV>::empty());
        }
        r
    }

    /// Position of the bet `id`, if it is stored.
    fn indice(&self, id: i64) -> (r: Option<usize>)
        ensures
            r is Some <==> 1 <= id <= self@.apostas.len(),
            r is Some ==> r->0 == id - 1,
    {
        if 1 <= id && id as u64 <= self.apostas.len() as u64 {
            Some((id - 1) as usize)
        } else {
            None
        }
    }

    /// Number of bets stored, active or not.
    pub fn quantidade_apostas(&self) -> (n: usize)
        ensures
            n == self@.apostas.len(),
    {
        self.apostas.len()
    }

    /// Adds an active bet with the next identifier and returns it as shown to
    /// its owner, with no links yet.
    pub fn adicionar_aposta(
        &mut self,
        numeros: Vec<i32>,
        concurso_inicial: i32,
        quantidade_concursos: i32,
        data_criacao: String,
    ) -> (r: Aposta)
        requires
            old(self).bem_formado(),
            limites_aposta(numeros@, concurso_inicial, quantidade_concursos),
            old(self)@.apostas.len() < i64::MAX,
        ensures
            final(self).bem_formado(),
            final(self)@ == apos_adicionar(
                old(self)@,
                numeros@,
                concurso_inicial,
                quantidade_concursos,
                data_criacao@,
            ),
            r@ == exibicao(final(self)@.apostas.last(), final(self)@.resultados),
    {
        let id = (self.apostas.len() as u64 + 1) as i64;
        let copia_numeros = numeros.clone();
        proof {
            assert(copia_numeros@ =~= numeros@);
        }
        let r = Aposta {
            id,
            numeros: copia_numeros,
            concurso_inicial,
            quantidade_concursos,
            data_criacao: data_criacao.clone(),
            ativa: true,
            acertos: HashMap::new(),
            resultados_concursos: HashMap::new(),
        };
        let registro = Registro {
            id,
            numeros,
            concurso_inicial,
            quantidade_concursos,
            data_criacao,
            ativa: true,
            acertos: HashMap::new(),
        };
        self.apostas.push(registro);
        proof {
            let esperado = apos_adicionar(
                old(self)@,
                numeros@,
                concurso_inicial,
                quantidade_concursos,
                data_criacao@,
            );
            assert(self@.apostas =~= esperado.apostas);
            assert(r@.resultados_concursos =~= resultados_da_aposta(
                self@.apostas.last(),
                self@.resultados,
            ));
            assert(r@.acertos =~= self@.apostas.last().acertos);
        }
        r
    }

    /// Makes the bet `id` inactive. Its links stay. An unknown identifier
    /// changes nothing.
    pub fn excluir_aposta(&mut self, id: i64)
        requires
            old(self).bem_formado(),
        ensures
            final(self).bem_formado(),
            final(self)@ == apos_excluir(old(self)@, id),
    {
        if let Some(i) = self.indice(id) {
            self.apostas[i].ativa = false;
            proof {
                assert(self@.apostas =~= apos_excluir(old(self)@, id).apostas);
            }
        }
    }

    /// Stores a result, replacing any result of the same draw.
    pub fn salvar_resultado(&mut self, resultado: &Resultado)
        requires
            old(self).bem_formado(),
        ensures
            final(self).bem_formado(),
            final(self)@ == apos_salvar(old(self)@, resultado@),
    {
        let copia = resultado.copia();
        self.resultados.insert(resultado.concurso, copia);
        proof {
            assert(self@.resultados =~= apos_salvar(old(self)@, resultado@).resultados);
        }
    }

    /// The result of the draw `concurso`, if one is stored.
    pub fn obter_resultado(&self, concurso: i32) -> (r: Option<Resultado>)
        requires
            self.bem_formado(),
        ensures
            r is Some <==> self@.resultados.contains_key(concurso),
            r is Some ==> r->0@ == self@.resultados[concurso],
    {
        match self.resultados.get(&concurso) {
            Some(res) => Some(res.copia()),
            None => None,
        }
    }

    /// The links of the bet `aposta_id`: draw number to match count. An
    /// unknown identifier has none.
    pub fn obter_acertos_aposta(&self, aposta_id: i64) -> (r: HashMap<i32, i32>)
        requires
            self.bem_formado(),
        ensures
            1 <= aposta_id <= self@.apostas.len() ==> r@ == self@.apostas[aposta_id - 1].acertos,
            !(1 <= aposta_id <= self@.apostas.len()) ==> r@ == Map::<i32, i32>::empty(),
    {
        if let Some(i) = self.indice(aposta_id) {
            self.apostas[i].acertos.clone()
        } else {
            let r = HashMap::new();
            proof {
                assert(r@ =~= Map::<i32, i32>::empty());
            }
            r
        }
    }

    /// Scores the draw `concurso`, with numbers `numeros_sorteados`, against
    /// every active bet whose window holds it, and sets the bet's link for
    /// that draw to the match count. Other bets are not touched; running it
    /// again with the same arguments changes nothing more.
    pub fn processar_acertos_concurso(&mut self, concurso: i32, numeros_sorteados: &[i32])
        requires
            old(self).bem_formado(),
        ensures
            final(self).bem_formado(),
            final(self)@ == apos_processar(old(self)@, concurso, numeros_sorteados@),
    {
        let ghost antes = self@;
        let mut i: usize = 0;
        while i < self.apostas.len()
            invariant
                banco_valido(antes),
                i <= self@.apostas.len() == antes.apostas.len(),
                self@.resultados == antes.resultados,
                forall|k: int|
                    0 <= k < i ==> #[trigger] self@.apostas[k] == registro_apos_processar(
                        antes.apostas[k],
                        concurso,
                        numeros_sorteados@,
                    ),
                forall|k: int| i <= k < antes.apostas.len() ==> #[trigger] self@.apostas[k] == antes.apostas[k],
            decreases antes.apostas.len() - i,
        {
            let ghost vprev = self.apostas@;
            let ghost previo = self@;
            proof {
                assert(self@.apostas[i as int] == antes.apostas[i as int]);
                assert(self.apostas@[i as int]@ == self@.apostas[i as int]);
                assert(registro_valido(antes.apostas[i as int]));
            }
            let no_intervalo = self.apostas[i].concurso_inicial <= concurso && (concurso as i64)
                < self.apostas[i].concurso_inicial as i64
                + self.apostas[i].quantidade_concursos as i64;
            if self.apostas[i].ativa && no_intervalo {
                let n = calcular_acertos(self.apostas[i].numeros.as_slice(), numeros_sorteados);
                self.apostas[i].acertos.insert(concurso, n);
            }
            proof {
                assert forall|k: int| 0 <= k < vprev.len() && k != i implies #[trigger] self.apostas@[k]
                    == vprev[k] by {}
                assert forall|k: int| 0 <= k < vprev.len() && k != i implies #[trigger] self@.apostas[k]
                    == previo.apostas[k] by {
                    assert(self.apostas@[k] == vprev[k]);
                    assert(previo.apostas[k] == vprev[k]@);
                }
                assert(self@.apostas[i as int] == registro_apos_processar(
                    antes.apostas[i as int],
                    concurso,
                    numeros_sorteados@,
                )) by {
                    if antes.apostas[i as int].ativa && no_intervalo {
                        assert(self@.apostas[i as int].acertos =~= antes.apostas[i as int].acertos.insert(
                            concurso,
                            contagem_acertos(antes.apostas[i as int].numeros, numeros_sorteados@) as i32,
                        ));
                    }
                }
            }
            i = i + 1;
        }
        proof {
            assert(self@.apostas =~= apos_processar(antes, concurso, numeros_sorteados@).apostas);
            assert forall|k: int| 0 <= k < self@.apostas.len() implies #[trigger] self@.apostas[k].id
                == k + 1 && registro_valido(self@.apostas[k]) by {
                let r = antes.apostas[k];
                assert(r.id == k + 1 && registro_valido(r));
                assert forall|c: i32| #[trigger] self@.apostas[k].acertos.contains_key(c) implies janela_contem(
                    self@.apostas[k],
                    c,
                ) by {
                    if c != concurso {
                        assert(r.acertos.contains_key(c));
                    }
                }
            }
        }
    }

    /// The stored bet at position `i`, as shown to its owner.
    fn exibir(&self, i: usize) -> (r: Aposta)
        requires
            self.bem_formado(),
            i < self@.apostas.len(),
        ensures
            r@ == exibicao(self@.apostas[i as int], self@.resultados),
    {
        let ghost reg = self@.apostas[i as int];
        let registro = &self.apostas[i];
        proof {
            assert(registro@ == reg);
            assert(registro_valido(reg));
        }
        let numeros = registro.numeros.clone();
        proof {
            assert(numeros@ =~= reg.numeros);
        }
        let mut resultados_concursos: HashMap<i32, Vec<i32>> = HashMap::new();
        let mut k: i32 = 0;
        while k < registro.quantidade_concursos
            invariant
                registro@ == reg,
                registro_valido(reg),
                0 <= k <= reg.quantidade_concursos,
                banco_valido(self@),
                forall|c: i32|
                    #[trigger] resultados_concursos@.contains_key(c) <==> (reg.concurso_inicial <= c
                        < reg.concurso_inicial + k && reg.acertos.contains_key(c)
                        && self@.resultados.contains_key(c)),
                forall|c: i32| #[trigger]
                    resultados_concursos@.contains_key(c) ==> resultados_concursos@[c]@
                        == self@.resultados[c].numeros_sorteados,
            decreases reg.quantidade_concursos - k,
        {
            let c = registro.concurso_inicial + k;
            if registro.acertos.contains_key(&c) {
                match self.resultados.get(&c) {
                    Some(res) => {
                        let sorteados = res.numeros_sorteados.clone();
                        proof {
                            assert(sorteados@ =~= self@.resultados[c].numeros_sorteados);
                        }
                        resultados_concursos.insert(c, sorteados);
                    },
                    None => {},
                }
            }
            k = k + 1;
        }
        let r = Aposta {
            id: registro.id,
            numeros,
            concurso_inicial: registro.concurso_inicial,
            quantidade_concursos: registro.quantidade_concursos,
            data_criacao: registro.data_criacao.clone(),
            ativa: registro.ativa,
            acertos: registro.acertos.clone(),
            resultados_concursos,
        };
        proof {
            assert(r@.resultados_concursos =~= resultados_da_aposta(reg, self@.resultados));
        }
        r
    }

    /// The active bets, newest first, each with its links and the numbers of
    /// each linked draw whose result is stored.
    pub fn listar_apostas(&self) -> (r: Vec<Aposta>)
        requires
            self.bem_formado(),
        ensures
            r@.len() == ativas_recentes(self@.apostas).len(),
            forall|k: int|
                0 <= k < r@.len() ==> #[trigger] r@[k]@ == exibicao(
                    ativas_recentes(self@.apostas)[k],
                    self@.resultados,
                ),
    {
        let ghost todas = self@.apostas;
        let mut r: Vec<Aposta> = Vec::new();
        let mut i: usize = self.apostas.len();
        proof {
            assert(todas.subrange(i as int, todas.len() as int) =~= Seq::<RegistroV>::empty());
        }
        while i > 0
            invariant
                self.bem_formado(),
                todas == self@.apostas,
                i <= todas.len(),
                r@.len() == ativas_recentes(todas.subrange(i as int, todas.len() as int)).len(),
                forall|k: int|
                    0 <= k < r@.len() ==> #[trigger] r@[k]@ == exibicao(
                        ativas_recentes(todas.subrange(i as int, todas.len() as int))[k],
                        self@.resultados,
                    ),
            decreases i,
        {
            i = i - 1;
            let ghost sufixo = todas.subrange(i as int, todas.len() as int);
            proof {
                assert(sufixo.drop_first() =~= todas.subrange(i + 1, todas.len() as int));
            }
            if self.apostas[i].ativa {
                let a = self.exibir(i);
                r.push(a);
            }
        }
        proof {
            assert(todas.subrange(0, todas.len() as int) =~= todas);
        }
        r
    }

    /// Restores a bet read back from storage, without links. It is taken
    /// only with the next identifier and within the bounds of a bet;
    /// otherwise the store is left as it is.
    pub fn restaurar_aposta(
        &mut self,
        id: i64,
        numeros: Vec<i32>,
        concurso_inicial: i32,
        quantidade_concursos: i32,
        data_criacao: String,
        ativa: bool,
    ) -> (ok: bool)
        requires
            old(self).bem_formado(),
        ensures
            final(self).bem_formado(),
            ok <==> id == old(self)@.apostas.len() + 1 && limites_aposta(
                numeros@,
                concurso_inicial,
                quantidade_concursos,
            ),
            ok ==> final(self)@ == apos_restaurar_aposta(
                old(self)@,
                numeros@,
                concurso_inicial,
                quantidade_concursos,
                data_criacao@,
                ativa,
            ),
            !ok ==> final(self)@ == old(self)@,
    {
        let proximo = 1 <= id && id as u64 - 1 == self.apostas.len() as u64;
        let limites = MIN_NUMEROS <= numeros.len() && numeros.len() <= MAX_NUMEROS && 0
            < concurso_inicial && 1 <= quantidade_concursos && quantidade_concursos
            <= MAX_CONCURSOS && concurso_inicial <= i32::MAX - quantidade_concursos;
        if proximo && limites {
            let registro = Registro {
                id,
                numeros,
                concurso_inicial,
                quantidade_concursos,
                data_criacao,
                ativa,
                acertos: HashMap::new(),
            };
            self.apostas.push(registro);
            proof {
                assert(self@.apostas.last().acertos =~= Map::<i32, i32>::empty());
                assert(self@.apostas =~= old(self)@.apostas.push(self@.apostas.last()));
            }
            true
        } else {
            false
        }
    }

    /// Restores a link read back from storage. It is taken only when its bet
    /// is stored and its draw lies in the bet's window; otherwise the store
    /// is left as it is.
    pub fn restaurar_vinculo(&mut self, vinculo: ApostaResultado) -> (ok: bool)
        requires
            old(self).bem_formado(),
        ensures
            final(self).bem_formado(),
            ok == vinculo_aceito(old(self)@, vinculo),
            ok ==> final(self)@ == apos_restaurar_vinculo(old(self)@, vinculo),
            !ok ==> final(self)@ == old(self)@,
    {
        match self.indice(vinculo.aposta_id) {
            Some(i) => {
                let ghost vprev = self.apostas@;
                let ghost previo = self@;
                proof {
                    assert(self.apostas@[i as int]@ == previo.apostas[i as int]);
                    assert(registro_valido(previo.apostas[i as int]));
                }
                let no_intervalo = self.apostas[i].concurso_inicial <= vinculo.concurso && (
                vinculo.concurso as i64) < self.apostas[i].concurso_inicial as i64
                    + self.apostas[i].quantidade_concursos as i64;
                if no_intervalo {
                    self.apostas[i].acertos.insert(vinculo.concurso, vinculo.acertos);
                    proof {
                        let esperado = apos_restaurar_vinculo(previo, vinculo);
                        assert forall|k: int| 0 <= k < vprev.len() implies #[trigger] self@.apostas[k]
                            == esperado.apostas[k] by {
                            if k == i {
                                assert(self@.apostas[k].acertos =~= esperado.apostas[k].acertos);
                            } else {
                                assert(self.apostas@[k] == vprev[k]);
                                assert(previo.apostas[k] == vprev[k]@);
                            }
                        }
                        assert(self@.apostas =~= esperado.apostas);
                        assert forall|k: int| 0 <= k < self@.apostas.len() implies (
                        #[trigger] self@.apostas[k]).id == k + 1 && registro_valido(
                            self@.apostas[k],
                        ) by {
                            assert(previo.apostas[k].id == k + 1 && registro_valido(
                                previo.apostas[k],
                            ));
                            assert forall|c: i32| #[trigger]
                                self@.apostas[k].acertos.contains_key(c) implies janela_contem(
                                self@.apostas[k],
                                c,
                            ) by {
                                if c != vinculo.concurso {
                                    assert(previo.apostas[k].acertos.contains_key(c));
                                }
                            }
                        }
                    }
                    true
                } else {
                    false
                }
            },
            None => false,
        }
    }
}

} // verus!
