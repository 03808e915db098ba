//! The values that the library hands to its callers, and their views.
use std::collections::HashMap;
use vstd::prelude::*;

verus! {

/// A bet as its owner sees it: the stored record together with the match
/// count of each verified draw and the numbers drawn in each of them.
#[derive(Debug, Clone)]
pub struct Aposta {
    pub id: i64,
    pub numeros: Vec<i32>,
    pub concurso_inicial: i32,
    pub quantidade_concursos: i32,
    pub data_criacao: String,
    pub ativa: bool,
    pub acertos: HashMap<i32, i32>,
    pub resultados_concursos: HashMap<i32, Vec<i32>>,
}

/// Mathematical view of an [`Aposta`].
pub ghost struct ApostaV {
    pub id: i64,
    pub numeros: Seq<i32>,
    pub concurso_inicial: i32,
    pub quantidade_concursos: i32,
    pub data_criacao: Seq<char>,
    pub ativa: bool,
    pub acertos: Map<i32, i32>,
    pub resultados_concursos: Map<i32, Seq<i32>>,
}

impl View for Aposta {
    type V = ApostaV;

    open spec fn view(&self) -> ApostaV {
        ApostaV {
            id: self.id,
            numeros: self.numeros@,
            concurso_inicial: self.concurso_inicial,
            quantidade_concursos: self.quantidade_concursos,
            data_criacao: self.data_criacao@,
            ativa: self.ativa,
            acertos: self.acertos@,
            resultados_concursos: self.resultados_concursos@.map_values(|v: Vec<i32>| v@),
        }
    }
}

/// The official result of one draw. The top-tier prize is held in cents.
#[derive(Debug, Clone)]
pub struct Resultado {
    pub concurso: i32,
    pub numeros_sorteados: Vec<i32>,
    pub data_sorteio: String,
    pub acumulado: bool,
    pub valor_premio_centavos: Option<u64>,
    pub ganhadores: Option<i32>,
}

/// Mathematical view of a [`Resultado`].
pub ghost struct ResultadoV {
    pub concurso: i32,
    pub numeros_sorteados: Seq<i32>,
    pub data_sorteio: Seq<char>,
    pub acumulado: bool,
    pub valor_premio_centavos: Option<u64>,
    pub ganhadores: Option<i32>,
}

impl View for Resultado {
    type V = ResultadoV;

    open spec fn view(&self) -> ResultadoV {
        ResultadoV {
            concurso: self.concurso,
            numeros_sorteados: self.numeros_sorteados@,
            data_sorteio: self.data_sorteio@,
            acumulado: self.acumulado,
            valor_premio_centavos: self.valor_premio_centavos,
            ganhadores: self.ganhadores,
        }
    }
}

impl Resultado {
    /// A copy of this result, field by field.
    pub fn copia(&self) -> (r: Resultado)
        ensures
            r@ == self@,
    {
        let numeros = self.numeros_sorteados.clone();
        proof {
            assert(numeros@ =~= self.numeros_sorteados@);
        }
        Resultado {
            concurso: self.concurso,
            numeros_sorteados: numeros,
            data_sorteio: self.data_sorteio.clone(),
            acumulado: self.acumulado,
            valor_premio_centavos: self.valor_premio_centavos,
            ganhadores: self.ganhadores,
        }
    }
}

/// One link between a bet and a draw: how many of the bet's numbers the draw hit.
#[derive(Debug, Clone, Copy, PartialEq, Eq, Structural)]
pub struct ApostaResultado {
    pub aposta_id: i64,
    pub concurso: i32,
    pub acertos: i32,
}

/// Why a bet submitted for storage was refused, or why a payload was not a
/// valid draw result.
#[derive(Debug, Clone, Copy, PartialEq, Eq, Structural)]
pub enum Invalido {
    /// The bet holds this many numbers, outside six to twenty.
    QuantidadeNumeros(usize),
    /// The starting draw number is not positive, or its window would pass the
    /// largest draw number.
    ConcursoInicial(i32),
    /// The number of draws is outside one to twelve.
    QuantidadeConcursos(i32),
    /// After parsing, the payload held this many drawn numbers, not six.
    QuantidadeDezenas(usize),
}

/// The kinds of failure, each with what the caller needs to report it.
#[derive(Debug, Clone)]
pub enum Erro {
    /// The request could not be made, or the source answered with an error status.
    Transporte(String),
    /// The answer could not be decoded.
    Decodificacao(String),
    /// A value was out of the accepted bounds.
    Validacao(Invalido),
    /// No source had the result of this draw: it may not be published yet.
    NaoEncontrado(i32),
    /// The storage engine failed.
    Armazenamento(String),
}

} // verus!
