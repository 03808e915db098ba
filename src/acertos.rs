//! Scoring of a bet against the numbers of a draw.
use vstd::prelude::*;

verus! {

/// How many entries of `aposta` occur in `sorteados`, counted from the front.
pub open spec fn contagem_acertos(aposta: Seq<i32>, sorteados: Seq<i32>) -> nat
    decreases aposta.len(),
{
    if aposta.len() == 0 {
        0
    } else {
        contagem_acertos(aposta.drop_last(), sorteados) + if sorteados.contains(aposta.last()) {
            1nat
        } else {
            0nat
        }
    }
}

/// Number of the bet's numbers that were drawn.
pub fn calcular_acertos(numeros_aposta: &[i32], numeros_sorteados: &[i32]) -> (r: i32)
    requires
        numeros_aposta@.len() <= i32::MAX,
    ensures
        r == contagem_acertos(numeros_aposta@, numeros_sorteados@),
{
    let mut total: i32 = 0;
    let mut i: usize = 0;
    while i < numeros_aposta.len()
        invariant
            i <= numeros_aposta@.len() <= i32::MAX,
            total == contagem_acertos(numeros_aposta@.subrange(0, i as int), numeros_sorteados@),
            total <= i,
        decreases numeros_aposta@.len() - i,
    {
        let n = numeros_aposta[i];
        let mut achou = false;
        let mut j: usize = 0;
        while j < numeros_sorteados.len()
            invariant
                j <= numeros_sorteados@.len(),
                achou <==> numeros_sorteados@.subrange(0, j as int).contains(n),
            decreases numeros_sorteados@.len() - j,
        {
            if numeros_sorteados[j] == n {
                achou = true;
            }
            proof {
                let antes = numeros_sorteados@.subrange(0, j as int);
                let depois = numeros_sorteados@.subrange(0, j + 1);
                if depois.contains(n) {
                    let k = choose|k: int| 0 <= k < depois.len() && depois[k] == n;
                    if k < j {
                        assert(antes[k] == n);
                    }
                }
                if antes.contains(n) {
                    let k = choose|k: int| 0 <= k < antes.len() && antes[k] == n;
                    assert(depois[k] == n);
                }
                if numeros_sorteados@[j as int] == n {
                    assert(depois[j as int] == n);
                }
            }
            j = j + 1;
        }
        proof {
            assert(numeros_sorteados@.subrange(0, j as int) == numeros_sorteados@);
            let prefixo = numeros_aposta@.subrange(0, i + 1);
            assert(prefixo.drop_last() == numeros_aposta@.subrange(0, i as int));
            assert(prefixo.last() == n);
        }
        if achou {
            total = total + 1;
        }
        i = i + 1;
    }
    proof {
        assert(numeros_aposta@.subrange(0, i as int) == numeros_aposta@);
    }
    total
}

/// The match count of a bet without repeated numbers is the size of the
/// intersection of the bet's numbers with the drawn numbers.
pub proof fn lema_acertos_intersecao(aposta: Seq<i32>, sorteados: Seq<i32>)
    requires
        aposta.no_duplicates(),
    ensures
        contagem_acertos(aposta, sorteados) == aposta.to_set().intersect(sorteados.to_set()).len(),
        aposta.to_set().intersect(sorteados.to_set()).finite(),
    decreases aposta.len(),
{
    let conjunto = sorteados.to_set();
    if aposta.len() == 0 {
        assert(aposta.to_set().intersect(conjunto) =~= Set::<i32>::empty());
    } else {
        let resto = aposta.drop_last();
        let x = aposta.last();
        assert(resto.no_duplicates()) by {
            assert forall|i: int, j: int|
                0 <= i < resto.len() && 0 <= j < resto.len() && i != j implies resto[i]
                != resto[j] by {
                assert(resto[i] == aposta[i] && resto[j] == aposta[j]);
            }
        }
        assert(!resto.contains(x)) by {
            if resto.contains(x) {
                let k = choose|k: int| 0 <= k < resto.len() && resto[k] == x;
                assert(aposta[k] == aposta[aposta.len() - 1]);
            }
        }
        lema_acertos_intersecao(resto, sorteados);
        let antes = resto.to_set().intersect(conjunto);
        assert(aposta.to_set() =~= resto.to_set().insert(x)) by {
            assert forall|y: i32| aposta.to_set().contains(y) implies resto.to_set().insert(
                x,
            ).contains(y) by {
                let k = choose|k: int| 0 <= k < aposta.len() && aposta[k] == y;
                if k < aposta.len() - 1 {
                    assert(resto[k] == y);
                }
            }
            assert forall|y: i32| resto.to_set().insert(x).contains(y) implies aposta.to_set().contains(
                y,
            ) by {
                if y == x {
                    assert(aposta[aposta.len() - 1] == y);
                } else {
                    let k = choose|k: int| 0 <= k < resto.len() && resto[k] == y;
                    assert(aposta[k] == y);
                }
            }
        }
        assert(!antes.contains(x));
        if sorteados.contains(x) {
            assert(aposta.to_set().intersect(conjunto) =~= antes.insert(x));
        } else {
            assert(aposta.to_set().intersect(conjunto) =~= antes);
        }
    }
}

/// The match count never exceeds the size of the bet, and for a bet without
/// repeated numbers it never exceeds the number of drawn numbers: against a
/// draw of six numbers it lies between zero and six.
pub proof fn lema_acertos_limites(aposta: Seq<i32>, sorteados: Seq<i32>)
    requires
        aposta.no_duplicates(),
    ensures
        contagem_acertos(aposta, sorteados) <= aposta.len(),
        contagem_acertos(aposta, sorteados) <= sorteados.len(),
        sorteados.len() == 6 ==> 0 <= contagem_acertos(aposta, sorteados) <= 6,
{
    lema_acertos_intersecao(aposta, sorteados);
    let inter = aposta.to_set().intersect(sorteados.to_set());
    aposta.unique_seq_to_set();
    sorteados.lemma_cardinality_of_set();
    vstd::set_lib::lemma_len_subset(inter, aposta.to_set());
    vstd::set_lib::lemma_len_subset(inter, sorteados.to_set());
}

/// The match count depends on the bet and on the draw as sets only: neither
/// the order of the bet's numbers nor that of the drawn numbers changes it.
pub proof fn lema_acertos_independe_ordem(
    aposta: Seq<i32>,
    outra_aposta: Seq<i32>,
    sorteados: Seq<i32>,
    outros_sorteados: Seq<i32>,
)
    requires
        aposta.no_duplicates(),
        outra_aposta.no_duplicates(),
        aposta.to_set() == outra_aposta.to_set(),
        sorteados.to_set() == outros_sorteados.to_set(),
    ensures
        contagem_acertos(aposta, sorteados) == contagem_acertos(outra_aposta, outros_sorteados),
{
    lema_acertos_intersecao(aposta, sorteados);
    lema_acertos_intersecao(outra_aposta, outros_sorteados);
}

} // verus!
