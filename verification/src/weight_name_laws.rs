//! That every weight is read from the tensor that the file format has for it, and no tensor is read
//! for two different weights.

use crate::weight_names::{LayerWeight, ModelWeight, WeightSlot};
use crate::weight_plan::{
    bank_weights, bias_weights, delta_weights, dense_weights, dsv4_compressor_weights,
    dsv4_hc_weights, dsv4_weights, dual_weights, kda_weights, last_weights, middle_norms,
    mla_weights, norm_weights, ple_weights, qk_norm_weights, qkv_weights, qsa_weights,
    shared_weights, slot, slots_if, uploaded_after_mixer, uploaded_ffn, uploaded_layer,
    uploaded_mixer, uploaded_routing, ModelShape,
};
use vstd::prelude::*;

verus! {

/// The code of a character of a name; zero behind its end.
spec fn code(name: Seq<char>, i: int) -> int {
    if i < name.len() {
        name[i] as u32 as int
    } else {
        0
    }
}

/// A number that tells the tensor names of the file format apart.
spec fn mark(name: Seq<char>) -> int {
    let m0: int = name.len() * 128 + code(name, 5);
    let m1: int = m0 * 128 + code(name, 10);
    let m2: int = m1 * 128 + code(name, 0);
    let m3: int = m2 * 128 + code(name, 7);
    let m4: int = m3 * 128 + code(name, 8);
    let m5: int = m4 * 128 + code(name, 19);
    let m6: int = m5 * 128 + code(name, 4);
    let m7: int = m6 * 128 + code(name, 12);
    let m8: int = m7 * 128 + code(name, 14);
    m8
}

/// The weight is one tensor of the file.
pub open spec fn single(w: LayerWeight) -> bool {
    w != LayerWeight::QkvFused && w != LayerWeight::GateUpFused && w != LayerWeight::ConvQkv
}

spec fn mark_of(w: LayerWeight) -> int {
    match w {
        LayerWeight::HcAttnNorm => 183667386593872516965,
        LayerWeight::HcAttnDown => 183670201340955268965,
        LayerWeight::HcAttnUp => 165182361925209371367,
        LayerWeight::HcAttnInject => 202109627066830631342,
        LayerWeight::HcFfnNorm => 174008854758687357929,
        LayerWeight::HcFfnDown => 174009417365043395561,
        LayerWeight::HcFfnUp => 155567740425298621672,
        LayerWeight::HcFfnInject => 192451095060945681015,
        LayerWeight::AttnNorm => 155567709535088407784,
        LayerWeight::QA => 146550376580158845940,
        LayerWeight::QANorm => 192672866277363545847,
        LayerWeight::QB => 146550376614518584308,
        LayerWeight::Q => 128104759177034332672,
        LayerWeight::K => 127672413612806765056,
        LayerWeight::V => 128465047147223972352,
        LayerWeight::KvAMqa => 192239394745046528247,
        LayerWeight::KvANorm => 201463329731829561646,
        LayerWeight::KB => 146118031050291016692,
        LayerWeight::VB => 146910664584708223988,
        LayerWeight::AttnGate => 155063306443394905320,
        LayerWeight::AttnOutput => 174084822422500408297,
        LayerWeight::IndexerKNorm => 201031017671031666990,
        LayerWeight::IndexerKNormBias => 182584273597104011566,
        LayerWeight::IndexerProj => 182584836548399601509,
        LayerWeight::IndexerAttnK => 201034395368067837870,
        LayerWeight::IndexerAttnQB => 219481139441779486687,
        LayerWeight::Sinks => 165110274057557242599,
        LayerWeight::Kv => 136896909046139319296,
        LayerWeight::OutputA => 192531566496453226743,
        LayerWeight::OutputB => 192531566496453226871,
        LayerWeight::HcAttnFn => 165182361921182839527,
        LayerWeight::HcAttnBase => 183667949540604712805,
        LayerWeight::HcAttnScale => 192881188483104584439,
        LayerWeight::HcFfnFn => 155567739909365675240,
        LayerWeight::HcFfnBase => 174004350742985030633,
        LayerWeight::HcFfnScale => 183231664014166169445,
        LayerWeight::CompressorKv => 237775291062458776050,
        LayerWeight::CompressorGate => 256222035136130578930,
        LayerWeight::CompressorApe => 246998663099160459762,
        LayerWeight::CompressorNorm => 256222035136147356146,
        LayerWeight::IndexerCompressorKv => 265594060660547664243,
        LayerWeight::IndexerCompressorGate => 284040804734248827251,
        LayerWeight::IndexerCompressorApe => 274817432697381468531,
        LayerWeight::IndexerCompressorNorm => 284040804734263507315,
        LayerWeight::SsmF => 114054169837027557376,
        LayerWeight::SsmBeta => 145685764616540959732,
        LayerWeight::SsmA => 46117365959624245248,
        LayerWeight::SsmDt => 109881021729236123648,
        LayerWeight::SsmNorm => 146406340969237296116,
        LayerWeight::SsmG => 114054169837027573760,
        LayerWeight::DeltaQkv => 146550377301713351668,
        LayerWeight::Conv1d => 164822123105551446759,
        LayerWeight::SsmAlpha => 155423673165031175400,
        LayerWeight::SsmOut => 137617564151356060672,
        LayerWeight::QBias => 109664769782285058048,
        LayerWeight::KBias => 109232424218057490432,
        LayerWeight::VBias => 110025057752474697728,
        LayerWeight::QNorm => 174224996754475449321,
        LayerWeight::KNorm => 173792651190247881705,
        LayerWeight::QsaKNorm => 201031017671031666990,
        LayerWeight::QsaKProj => 201032143570938509230,
        LayerWeight::QsaQNorm => 201031017672642279726,
        LayerWeight::QsaQProj => 201032143572549121966,
        LayerWeight::PleKey => 136464629452609614848,
        LayerWeight::PleValue => 154631026884225119464,
        LayerWeight::PleNormKey => 183299815935670196069,
        LayerWeight::PleNormQuery => 201755567208852601134,
        LayerWeight::PleNormConv => 192528817472302463863,
        LayerWeight::PleConv => 164822109911411913447,
        LayerWeight::AttnSubNorm => 192816981499799140087,
        LayerWeight::PostAttnNorm => 246863058368648968159,
        LayerWeight::FfnNorm => 146406283794632651764,
        LayerWeight::Gate => 145397477203223639028,
        LayerWeight::Up => 128032723573229320704,
        LayerWeight::Down => 146406283828992226292,
        LayerWeight::PostFfwNorm1 => 210327043543240537777,
        LayerWeight::PreFfwNorm2 => 201105359535641046958,
        LayerWeight::Router => 182296031913376864101,
        LayerWeight::RouterScale => 173072659876522088291,
        LayerWeight::GateUpExps => 219190645960923017968,
        LayerWeight::GateExps => 191525033450009131511,
        LayerWeight::UpExps => 174156338543569239017,
        LayerWeight::DownExps => 192533840075777718775,
        LayerWeight::DownExpsScale => 183310468038679673331,
        LayerWeight::PostFfwNorm2 => 210327043543240537778,
        LayerWeight::ExpProbsB => 155844135006259392865,
        LayerWeight::Tid2Eid => 219186705311249062249,
        LayerWeight::SharedGateInp => 237636264134755086312,
        LayerWeight::SharedGate => 200739398287584001070,
        LayerWeight::SharedUp => 183382525806932481893,
        LayerWeight::SharedDown => 201748204913352588334,
        LayerWeight::FfnSubNorm => 183739435391817406309,
        LayerWeight::PostFfwNorm => 191880299469558249207,
        LayerWeight::InpGate => 145397490397363172340,
        LayerWeight::Proj => 110097744507144208384,
        LayerWeight::PostNorm => 155567775505786074344,
        _ => 0,
    }
}

spec fn marked(m: int) -> LayerWeight {
    if m == 183667386593872516965 {
        LayerWeight::HcAttnNorm
    } else if m == 183670201340955268965 {
        LayerWeight::HcAttnDown
    } else if m == 165182361925209371367 {
        LayerWeight::HcAttnUp
    } else if m == 202109627066830631342 {
        LayerWeight::HcAttnInject
    } else if m == 174008854758687357929 {
        LayerWeight::HcFfnNorm
    } else if m == 174009417365043395561 {
        LayerWeight::HcFfnDown
    } else if m == 155567740425298621672 {
        LayerWeight::HcFfnUp
    } else if m == 192451095060945681015 {
        LayerWeight::HcFfnInject
    } else if m == 155567709535088407784 {
        LayerWeight::AttnNorm
    } else if m == 146550376580158845940 {
        LayerWeight::QA
    } else if m == 192672866277363545847 {
        LayerWeight::QANorm
    } else if m == 146550376614518584308 {
        LayerWeight::QB
    } else if m == 128104759177034332672 {
        LayerWeight::Q
    } else if m == 127672413612806765056 {
        LayerWeight::K
    } else if m == 128465047147223972352 {
        LayerWeight::V
    } else if m == 192239394745046528247 {
        LayerWeight::KvAMqa
    } else if m == 201463329731829561646 {
        LayerWeight::KvANorm
    } else if m == 146118031050291016692 {
        LayerWeight::KB
    } else if m == 146910664584708223988 {
        LayerWeight::VB
    } else if m == 155063306443394905320 {
        LayerWeight::AttnGate
    } else if m == 174084822422500408297 {
        LayerWeight::AttnOutput
    } else if m == 201031017671031666990 {
        LayerWeight::IndexerKNorm
    } else if m == 182584273597104011566 {
        LayerWeight::IndexerKNormBias
    } else if m == 182584836548399601509 {
        LayerWeight::IndexerProj
    } else if m == 201034395368067837870 {
        LayerWeight::IndexerAttnK
    } else if m == 219481139441779486687 {
        LayerWeight::IndexerAttnQB
    } else if m == 165110274057557242599 {
        LayerWeight::Sinks
    } else if m == 136896909046139319296 {
        LayerWeight::Kv
    } else if m == 192531566496453226743 {
        LayerWeight::OutputA
    } else if m == 192531566496453226871 {
        LayerWeight::OutputB
    } else if m == 165182361921182839527 {
        LayerWeight::HcAttnFn
    } else if m == 183667949540604712805 {
        LayerWeight::HcAttnBase
    } else if m == 192881188483104584439 {
        LayerWeight::HcAttnScale
    } else if m == 155567739909365675240 {
        LayerWeight::HcFfnFn
    } else if m == 174004350742985030633 {
        LayerWeight::HcFfnBase
    } else if m == 183231664014166169445 {
        LayerWeight::HcFfnScale
    } else if m == 237775291062458776050 {
        LayerWeight::CompressorKv
    } else if m == 256222035136130578930 {
        LayerWeight::CompressorGate
    } else if m == 246998663099160459762 {
        LayerWeight::CompressorApe
    } else if m == 256222035136147356146 {
        LayerWeight::CompressorNorm
    } else if m == 265594060660547664243 {
        LayerWeight::IndexerCompressorKv
    } else if m == 284040804734248827251 {
        LayerWeight::IndexerCompressorGate
    } else if m == 274817432697381468531 {
        LayerWeight::IndexerCompressorApe
    } else if m == 284040804734263507315 {
        LayerWeight::IndexerCompressorNorm
    } else if m == 114054169837027557376 {
        LayerWeight::SsmF
    } else if m == 145685764616540959732 {
        LayerWeight::SsmBeta
    } else if m == 46117365959624245248 {
        LayerWeight::SsmA
    } else if m == 109881021729236123648 {
        LayerWeight::SsmDt
    } else if m == 146406340969237296116 {
        LayerWeight::SsmNorm
    } else if m == 114054169837027573760 {
        LayerWeight::SsmG
    } else if m == 146550377301713351668 {
        LayerWeight::DeltaQkv
    } else if m == 164822123105551446759 {
        LayerWeight::Conv1d
    } else if m == 155423673165031175400 {
        LayerWeight::SsmAlpha
    } else if m == 137617564151356060672 {
        LayerWeight::SsmOut
    } else if m == 109664769782285058048 {
        LayerWeight::QBias
    } else if m == 109232424218057490432 {
        LayerWeight::KBias
    } else if m == 110025057752474697728 {
        LayerWeight::VBias
    } else if m == 174224996754475449321 {
        LayerWeight::QNorm
    } else if m == 173792651190247881705 {
        LayerWeight::KNorm
    } else if m == 201032143570938509230 {
        LayerWeight::QsaKProj
    } else if m == 201031017672642279726 {
        LayerWeight::QsaQNorm
    } else if m == 201032143572549121966 {
        LayerWeight::QsaQProj
    } else if m == 136464629452609614848 {
        LayerWeight::PleKey
    } else if m == 154631026884225119464 {
        LayerWeight::PleValue
    } else if m == 183299815935670196069 {
        LayerWeight::PleNormKey
    } else if m == 201755567208852601134 {
        LayerWeight::PleNormQuery
    } else if m == 192528817472302463863 {
        LayerWeight::PleNormConv
    } else if m == 164822109911411913447 {
        LayerWeight::PleConv
    } else if m == 192816981499799140087 {
        LayerWeight::AttnSubNorm
    } else if m == 246863058368648968159 {
        LayerWeight::PostAttnNorm
    } else if m == 146406283794632651764 {
        LayerWeight::FfnNorm
    } else if m == 145397477203223639028 {
        LayerWeight::Gate
    } else if m == 128032723573229320704 {
        LayerWeight::Up
    } else if m == 146406283828992226292 {
        LayerWeight::Down
    } else if m == 210327043543240537777 {
        LayerWeight::PostFfwNorm1
    } else if m == 201105359535641046958 {
        LayerWeight::PreFfwNorm2
    } else if m == 182296031913376864101 {
        LayerWeight::Router
    } else if m == 173072659876522088291 {
        LayerWeight::RouterScale
    } else if m == 219190645960923017968 {
        LayerWeight::GateUpExps
    } else if m == 191525033450009131511 {
        LayerWeight::GateExps
    } else if m == 174156338543569239017 {
        LayerWeight::UpExps
    } else if m == 192533840075777718775 {
        LayerWeight::DownExps
    } else if m == 183310468038679673331 {
        LayerWeight::DownExpsScale
    } else if m == 210327043543240537778 {
        LayerWeight::PostFfwNorm2
    } else if m == 155844135006259392865 {
        LayerWeight::ExpProbsB
    } else if m == 219186705311249062249 {
        LayerWeight::Tid2Eid
    } else if m == 237636264134755086312 {
        LayerWeight::SharedGateInp
    } else if m == 200739398287584001070 {
        LayerWeight::SharedGate
    } else if m == 183382525806932481893 {
        LayerWeight::SharedUp
    } else if m == 201748204913352588334 {
        LayerWeight::SharedDown
    } else if m == 183739435391817406309 {
        LayerWeight::FfnSubNorm
    } else if m == 191880299469558249207 {
        LayerWeight::PostFfwNorm
    } else if m == 145397490397363172340 {
        LayerWeight::InpGate
    } else if m == 110097744507144208384 {
        LayerWeight::Proj
    } else if m == 155567775505786074344 {
        LayerWeight::PostNorm
    } else {
        LayerWeight::QkvFused
    }
}

#[verifier::rlimit(40)]
proof fn lemma_marks(w: LayerWeight)
    requires
        single(w),
    ensures
        w.tensors().len() == 1,
        mark(w.tensors()[0]) == mark_of(w),
{
    match w {
        LayerWeight::HcAttnNorm => {
            reveal_strlit("hc_attn_norm.weight");
        },
        LayerWeight::HcAttnDown => {
            reveal_strlit("hc_attn_down.weight");
        },
        LayerWeight::HcAttnUp => {
            reveal_strlit("hc_attn_up.weight");
        },
        LayerWeight::HcAttnInject => {
            reveal_strlit("hc_attn_inject.weight");
        },
        LayerWeight::HcFfnNorm => {
            reveal_strlit("hc_ffn_norm.weight");
        },
        LayerWeight::HcFfnDown => {
            reveal_strlit("hc_ffn_down.weight");
        },
        LayerWeight::HcFfnUp => {
            reveal_strlit("hc_ffn_up.weight");
        },
        LayerWeight::HcFfnInject => {
            reveal_strlit("hc_ffn_inject.weight");
        },
        LayerWeight::AttnNorm => {
            reveal_strlit("attn_norm.weight");
        },
        LayerWeight::QA => {
            reveal_strlit("attn_q_a.weight");
        },
        LayerWeight::QANorm => {
            reveal_strlit("attn_q_a_norm.weight");
        },
        LayerWeight::QB => {
            reveal_strlit("attn_q_b.weight");
        },
        LayerWeight::Q => {
            reveal_strlit("attn_q.weight");
        },
        LayerWeight::K => {
            reveal_strlit("attn_k.weight");
        },
        LayerWeight::V => {
            reveal_strlit("attn_v.weight");
        },
        LayerWeight::KvAMqa => {
            reveal_strlit("attn_kv_a_mqa.weight");
        },
        LayerWeight::KvANorm => {
            reveal_strlit("attn_kv_a_norm.weight");
        },
        LayerWeight::KB => {
            reveal_strlit("attn_k_b.weight");
        },
        LayerWeight::VB => {
            reveal_strlit("attn_v_b.weight");
        },
        LayerWeight::AttnGate => {
            reveal_strlit("attn_gate.weight");
        },
        LayerWeight::AttnOutput => {
            reveal_strlit("attn_output.weight");
        },
        LayerWeight::IndexerKNorm => {
            reveal_strlit("indexer.k_norm.weight");
        },
        LayerWeight::IndexerKNormBias => {
            reveal_strlit("indexer.k_norm.bias");
        },
        LayerWeight::IndexerProj => {
            reveal_strlit("indexer.proj.weight");
        },
        LayerWeight::IndexerAttnK => {
            reveal_strlit("indexer.attn_k.weight");
        },
        LayerWeight::IndexerAttnQB => {
            reveal_strlit("indexer.attn_q_b.weight");
        },
        LayerWeight::Sinks => {
            reveal_strlit("attn_sinks.weight");
        },
        LayerWeight::Kv => {
            reveal_strlit("attn_kv.weight");
        },
        LayerWeight::OutputA => {
            reveal_strlit("attn_output_a.weight");
        },
        LayerWeight::OutputB => {
            reveal_strlit("attn_output_b.weight");
        },
        LayerWeight::HcAttnFn => {
            reveal_strlit("hc_attn_fn.weight");
        },
        LayerWeight::HcAttnBase => {
            reveal_strlit("hc_attn_base.weight");
        },
        LayerWeight::HcAttnScale => {
            reveal_strlit("hc_attn_scale.weight");
        },
        LayerWeight::HcFfnFn => {
            reveal_strlit("hc_ffn_fn.weight");
        },
        LayerWeight::HcFfnBase => {
            reveal_strlit("hc_ffn_base.weight");
        },
        LayerWeight::HcFfnScale => {
            reveal_strlit("hc_ffn_scale.weight");
        },
        LayerWeight::CompressorKv => {
            reveal_strlit("attn_compressor_kv.weight");
        },
        LayerWeight::CompressorGate => {
            reveal_strlit("attn_compressor_gate.weight");
        },
        LayerWeight::CompressorApe => {
            reveal_strlit("attn_compressor_ape.weight");
        },
        LayerWeight::CompressorNorm => {
            reveal_strlit("attn_compressor_norm.weight");
        },
        LayerWeight::IndexerCompressorKv => {
            reveal_strlit("indexer_compressor_kv.weight");
        },
        LayerWeight::IndexerCompressorGate => {
            reveal_strlit("indexer_compressor_gate.weight");
        },
        LayerWeight::IndexerCompressorApe => {
            reveal_strlit("indexer_compressor_ape.weight");
        },
        LayerWeight::IndexerCompressorNorm => {
            reveal_strlit("indexer_compressor_norm.weight");
        },
        LayerWeight::SsmF => {
            reveal_strlit("ssm_f.weight");
        },
        LayerWeight::SsmBeta => {
            reveal_strlit("ssm_beta.weight");
        },
        LayerWeight::SsmA => {
            reveal_strlit("ssm_a");
        },
        LayerWeight::SsmDt => {
            reveal_strlit("ssm_dt.bias");
        },
        LayerWeight::SsmNorm => {
            reveal_strlit("ssm_norm.weight");
        },
        LayerWeight::SsmG => {
            reveal_strlit("ssm_g.weight");
        },
        LayerWeight::DeltaQkv => {
            reveal_strlit("attn_qkv.weight");
        },
        LayerWeight::Conv1d => {
            reveal_strlit("ssm_conv1d.weight");
        },
        LayerWeight::SsmAlpha => {
            reveal_strlit("ssm_alpha.weight");
        },
        LayerWeight::SsmOut => {
            reveal_strlit("ssm_out.weight");
        },
        LayerWeight::QBias => {
            reveal_strlit("attn_q.bias");
        },
        LayerWeight::KBias => {
            reveal_strlit("attn_k.bias");
        },
        LayerWeight::VBias => {
            reveal_strlit("attn_v.bias");
        },
        LayerWeight::QNorm => {
            reveal_strlit("attn_q_norm.weight");
        },
        LayerWeight::KNorm => {
            reveal_strlit("attn_k_norm.weight");
        },
        LayerWeight::QsaKNorm => {
            reveal_strlit("indexer.k_norm.weight");
        },
        LayerWeight::QsaKProj => {
            reveal_strlit("indexer.k_proj.weight");
        },
        LayerWeight::QsaQNorm => {
            reveal_strlit("indexer.q_norm.weight");
        },
        LayerWeight::QsaQProj => {
            reveal_strlit("indexer.q_proj.weight");
        },
        LayerWeight::PleKey => {
            reveal_strlit("ple_key.weight");
        },
        LayerWeight::PleValue => {
            reveal_strlit("ple_value.weight");
        },
        LayerWeight::PleNormKey => {
            reveal_strlit("ple_norm_key.weight");
        },
        LayerWeight::PleNormQuery => {
            reveal_strlit("ple_norm_query.weight");
        },
        LayerWeight::PleNormConv => {
            reveal_strlit("ple_norm_conv.weight");
        },
        LayerWeight::PleConv => {
            reveal_strlit("ple_conv1d.weight");
        },
        LayerWeight::AttnSubNorm => {
            reveal_strlit("attn_sub_norm.weight");
        },
        LayerWeight::PostAttnNorm => {
            reveal_strlit("post_attention_norm.weight");
        },
        LayerWeight::FfnNorm => {
            reveal_strlit("ffn_norm.weight");
        },
        LayerWeight::Gate => {
            reveal_strlit("ffn_gate.weight");
        },
        LayerWeight::Up => {
            reveal_strlit("ffn_up.weight");
        },
        LayerWeight::Down => {
            reveal_strlit("ffn_down.weight");
        },
        LayerWeight::PostFfwNorm1 => {
            reveal_strlit("post_ffw_norm_1.weight");
        },
        LayerWeight::PreFfwNorm2 => {
            reveal_strlit("pre_ffw_norm_2.weight");
        },
        LayerWeight::Router => {
            reveal_strlit("ffn_gate_inp.weight");
        },
        LayerWeight::RouterScale => {
            reveal_strlit("ffn_gate_inp.scale");
        },
        LayerWeight::GateUpExps => {
            reveal_strlit("ffn_gate_up_exps.weight");
        },
        LayerWeight::GateExps => {
            reveal_strlit("ffn_gate_exps.weight");
        },
        LayerWeight::UpExps => {
            reveal_strlit("ffn_up_exps.weight");
        },
        LayerWeight::DownExps => {
            reveal_strlit("ffn_down_exps.weight");
        },
        LayerWeight::DownExpsScale => {
            reveal_strlit("ffn_down_exps.scale");
        },
        LayerWeight::PostFfwNorm2 => {
            reveal_strlit("post_ffw_norm_2.weight");
        },
        LayerWeight::ExpProbsB => {
            reveal_strlit("exp_probs_b.bias");
        },
        LayerWeight::Tid2Eid => {
            reveal_strlit("ffn_gate_tid2eid.weight");
        },
        LayerWeight::SharedGateInp => {
            reveal_strlit("ffn_gate_inp_shexp.weight");
        },
        LayerWeight::SharedGate => {
            reveal_strlit("ffn_gate_shexp.weight");
        },
        LayerWeight::SharedUp => {
            reveal_strlit("ffn_up_shexp.weight");
        },
        LayerWeight::SharedDown => {
            reveal_strlit("ffn_down_shexp.weight");
        },
        LayerWeight::FfnSubNorm => {
            reveal_strlit("ffn_sub_norm.weight");
        },
        LayerWeight::PostFfwNorm => {
            reveal_strlit("post_ffw_norm.weight");
        },
        LayerWeight::InpGate => {
            reveal_strlit("inp_gate.weight");
        },
        LayerWeight::Proj => {
            reveal_strlit("proj.weight");
        },
        LayerWeight::PostNorm => {
            reveal_strlit("post_norm.weight");
        },
        _ => {},
    }
}

/// One tensor serves two architectures, which name the norm of their index keys alike.
pub open spec fn same_norm(a: LayerWeight, b: LayerWeight) -> bool {
    (a == LayerWeight::IndexerKNorm && b == LayerWeight::QsaKNorm) || (a == LayerWeight::QsaKNorm
        && b == LayerWeight::IndexerKNorm)
}

#[verifier::rlimit(40)]
proof fn lemma_marked(w: LayerWeight)
    requires
        single(w),
    ensures
        marked(mark_of(w)) == w || same_norm(marked(mark_of(w)), w),
{
}

/// No two different weights of a layer are read from the same tensor.
pub proof fn law_no_tensor_is_read_for_two_weights(a: LayerWeight, b: LayerWeight)
    requires
        single(a),
        single(b),
        a != b,
        !same_norm(a, b),
    ensures
        a.tensors().len() == 1,
        b.tensors().len() == 1,
        a.tensors()[0] != b.tensors()[0],
{
    lemma_marks(a);
    lemma_marks(b);
    lemma_marked(a);
    lemma_marked(b);
}

/// A joined weight is its parts, in order: queries, keys and values; the rows that are activated
/// and those that they weigh.
pub proof fn law_joined_weights_are_their_parts()
    ensures
        LayerWeight::QkvFused.tensors() == LayerWeight::Q.tensors() + LayerWeight::K.tensors()
            + LayerWeight::V.tensors(),
        LayerWeight::GateUpFused.tensors() == LayerWeight::Gate.tensors()
            + LayerWeight::Up.tensors(),
        LayerWeight::ConvQkv.tensors() == seq![
            "ssm_conv1d_q.weight"@,
            "ssm_conv1d_k.weight"@,
            "ssm_conv1d_v.weight"@,
        ],
{
    assert(LayerWeight::QkvFused.tensors() =~= LayerWeight::Q.tensors() + LayerWeight::K.tensors()
        + LayerWeight::V.tensors());
    assert(LayerWeight::GateUpFused.tensors() =~= LayerWeight::Gate.tensors()
        + LayerWeight::Up.tensors());
}

/// The name behind the layer's prefix under which the file format keeps a weight of a layer.
pub open spec fn layer_tensor(w: LayerWeight) -> Seq<char> {
    match w {
        LayerWeight::HcAttnNorm => "hc_attn_norm.weight"@,
        LayerWeight::HcAttnDown => "hc_attn_down.weight"@,
        LayerWeight::HcAttnUp => "hc_attn_up.weight"@,
        LayerWeight::HcAttnInject => "hc_attn_inject.weight"@,
        LayerWeight::HcFfnNorm => "hc_ffn_norm.weight"@,
        LayerWeight::HcFfnDown => "hc_ffn_down.weight"@,
        LayerWeight::HcFfnUp => "hc_ffn_up.weight"@,
        LayerWeight::HcFfnInject => "hc_ffn_inject.weight"@,
        LayerWeight::AttnNorm => "attn_norm.weight"@,
        LayerWeight::QA => "attn_q_a.weight"@,
        LayerWeight::QANorm => "attn_q_a_norm.weight"@,
        LayerWeight::QB => "attn_q_b.weight"@,
        LayerWeight::Q => "attn_q.weight"@,
        LayerWeight::K => "attn_k.weight"@,
        LayerWeight::V => "attn_v.weight"@,
        LayerWeight::KvAMqa => "attn_kv_a_mqa.weight"@,
        LayerWeight::KvANorm => "attn_kv_a_norm.weight"@,
        LayerWeight::KB => "attn_k_b.weight"@,
        LayerWeight::VB => "attn_v_b.weight"@,
        LayerWeight::AttnGate => "attn_gate.weight"@,
        LayerWeight::AttnOutput => "attn_output.weight"@,
        LayerWeight::IndexerKNorm => "indexer.k_norm.weight"@,
        LayerWeight::IndexerKNormBias => "indexer.k_norm.bias"@,
        LayerWeight::IndexerProj => "indexer.proj.weight"@,
        LayerWeight::IndexerAttnK => "indexer.attn_k.weight"@,
        LayerWeight::IndexerAttnQB => "indexer.attn_q_b.weight"@,
        LayerWeight::Sinks => "attn_sinks.weight"@,
        LayerWeight::Kv => "attn_kv.weight"@,
        LayerWeight::OutputA => "attn_output_a.weight"@,
        LayerWeight::OutputB => "attn_output_b.weight"@,
        LayerWeight::HcAttnFn => "hc_attn_fn.weight"@,
        LayerWeight::HcAttnBase => "hc_attn_base.weight"@,
        LayerWeight::HcAttnScale => "hc_attn_scale.weight"@,
        LayerWeight::HcFfnFn => "hc_ffn_fn.weight"@,
        LayerWeight::HcFfnBase => "hc_ffn_base.weight"@,
        LayerWeight::HcFfnScale => "hc_ffn_scale.weight"@,
        LayerWeight::CompressorKv => "attn_compressor_kv.weight"@,
        LayerWeight::CompressorGate => "attn_compressor_gate.weight"@,
        LayerWeight::CompressorApe => "attn_compressor_ape.weight"@,
        LayerWeight::CompressorNorm => "attn_compressor_norm.weight"@,
        LayerWeight::IndexerCompressorKv => "indexer_compressor_kv.weight"@,
        LayerWeight::IndexerCompressorGate => "indexer_compressor_gate.weight"@,
        LayerWeight::IndexerCompressorApe => "indexer_compressor_ape.weight"@,
        LayerWeight::IndexerCompressorNorm => "indexer_compressor_norm.weight"@,
        LayerWeight::SsmF => "ssm_f.weight"@,
        LayerWeight::SsmBeta => "ssm_beta.weight"@,
        LayerWeight::SsmA => "ssm_a"@,
        LayerWeight::SsmDt => "ssm_dt.bias"@,
        LayerWeight::SsmNorm => "ssm_norm.weight"@,
        LayerWeight::SsmG => "ssm_g.weight"@,
        LayerWeight::DeltaQkv => "attn_qkv.weight"@,
        LayerWeight::Conv1d => "ssm_conv1d.weight"@,
        LayerWeight::SsmAlpha => "ssm_alpha.weight"@,
        LayerWeight::SsmOut => "ssm_out.weight"@,
        LayerWeight::QBias => "attn_q.bias"@,
        LayerWeight::KBias => "attn_k.bias"@,
        LayerWeight::VBias => "attn_v.bias"@,
        LayerWeight::QNorm => "attn_q_norm.weight"@,
        LayerWeight::KNorm => "attn_k_norm.weight"@,
        LayerWeight::QsaKNorm => "indexer.k_norm.weight"@,
        LayerWeight::QsaKProj => "indexer.k_proj.weight"@,
        LayerWeight::QsaQNorm => "indexer.q_norm.weight"@,
        LayerWeight::QsaQProj => "indexer.q_proj.weight"@,
        LayerWeight::PleKey => "ple_key.weight"@,
        LayerWeight::PleValue => "ple_value.weight"@,
        LayerWeight::PleNormKey => "ple_norm_key.weight"@,
        LayerWeight::PleNormQuery => "ple_norm_query.weight"@,
        LayerWeight::PleNormConv => "ple_norm_conv.weight"@,
        LayerWeight::PleConv => "ple_conv1d.weight"@,
        LayerWeight::AttnSubNorm => "attn_sub_norm.weight"@,
        LayerWeight::PostAttnNorm => "post_attention_norm.weight"@,
        LayerWeight::FfnNorm => "ffn_norm.weight"@,
        LayerWeight::Gate => "ffn_gate.weight"@,
        LayerWeight::Up => "ffn_up.weight"@,
        LayerWeight::Down => "ffn_down.weight"@,
        LayerWeight::PostFfwNorm1 => "post_ffw_norm_1.weight"@,
        LayerWeight::PreFfwNorm2 => "pre_ffw_norm_2.weight"@,
        LayerWeight::Router => "ffn_gate_inp.weight"@,
        LayerWeight::RouterScale => "ffn_gate_inp.scale"@,
        LayerWeight::GateUpExps => "ffn_gate_up_exps.weight"@,
        LayerWeight::GateExps => "ffn_gate_exps.weight"@,
        LayerWeight::UpExps => "ffn_up_exps.weight"@,
        LayerWeight::DownExps => "ffn_down_exps.weight"@,
        LayerWeight::DownExpsScale => "ffn_down_exps.scale"@,
        LayerWeight::PostFfwNorm2 => "post_ffw_norm_2.weight"@,
        LayerWeight::ExpProbsB => "exp_probs_b.bias"@,
        LayerWeight::Tid2Eid => "ffn_gate_tid2eid.weight"@,
        LayerWeight::SharedGateInp => "ffn_gate_inp_shexp.weight"@,
        LayerWeight::SharedGate => "ffn_gate_shexp.weight"@,
        LayerWeight::SharedUp => "ffn_up_shexp.weight"@,
        LayerWeight::SharedDown => "ffn_down_shexp.weight"@,
        LayerWeight::FfnSubNorm => "ffn_sub_norm.weight"@,
        LayerWeight::PostFfwNorm => "post_ffw_norm.weight"@,
        LayerWeight::InpGate => "inp_gate.weight"@,
        LayerWeight::Proj => "proj.weight"@,
        LayerWeight::PostNorm => "post_norm.weight"@,
        _ => Seq::empty(),
    }
}

/// A weight of a layer is read from the tensor in which the file format keeps it.
#[verifier::rlimit(40)]
pub proof fn law_a_layers_weight_is_read_from_its_own_tensor(w: LayerWeight)
    requires
        single(w),
    ensures
        w.tensors().len() == 1,
        w.tensors()[0] == layer_tensor(w),
{
}

/// The weight of the model as a whole that the file format keeps in a tensor of this name. The head
/// of a model without one of its own is the token embedding.
pub open spec fn model_tensor_holds(name: Seq<char>, w: ModelWeight) -> bool {
    ||| name == "output_hc_norm.weight"@ && w == ModelWeight::OutputHcNorm
    ||| name == "output_hc_down.weight"@ && w == ModelWeight::OutputHcDown
    ||| name == "output_hc_up.weight"@ && w == ModelWeight::OutputHcUp
    ||| name == "output_norm.weight"@ && w == ModelWeight::OutputNorm
    ||| name == "output.weight"@ && w == ModelWeight::LmHead
    ||| name == "token_embd.weight"@ && w == ModelWeight::TiedLmHead
    ||| name == "output_hc_fn.weight"@ && w == ModelWeight::OutputHcFn
    ||| name == "output_hc_base.weight"@ && w == ModelWeight::OutputHcBase
    ||| name == "output_hc_scale.weight"@ && w == ModelWeight::OutputHcScale
    ||| name == "token_embd.weight"@ && w == ModelWeight::TokenEmbd
    ||| name == "per_layer_token_embd.weight"@ && w == ModelWeight::PerLayerTokenEmbd
    ||| name == "self_cond_pre_norm.weight"@ && w == ModelWeight::SelfCondPreNorm
    ||| name == "self_cond_gate.weight"@ && w == ModelWeight::SelfCondGate
    ||| name == "self_cond_up.weight"@ && w == ModelWeight::SelfCondUp
    ||| name == "self_cond_down.weight"@ && w == ModelWeight::SelfCondDown
    ||| name == "per_layer_model_proj.weight"@ && w == ModelWeight::PerLayerModelProj
    ||| name == "per_layer_proj_norm.weight"@ && w == ModelWeight::PerLayerProjNorm
}

/// A weight of the model as a whole is read from the tensor in which the file format keeps it; only
/// vectors of ones are read from none.
pub proof fn law_a_models_weight_is_read_from_its_own_tensor(w: ModelWeight)
    ensures
        w.tensors().len() == 1 ==> model_tensor_holds(w.tensors()[0], w),
        w.tensors().len() <= 1,
        w.tensors().len() == 0 <==> w == ModelWeight::VOnes || w == ModelWeight::RouterOnes || w
            == ModelWeight::QkOnes || w == ModelWeight::HcOnes || w == ModelWeight::QwenHcOnes,
{
}

/// The weight is not among those that are uploaded.
spec fn lacks(list: Seq<WeightSlot>, l: int, w: LayerWeight) -> bool {
    forall|k: int| 0 <= k < list.len() ==> #[trigger] list[k] != slot(l, w)
}

proof fn lemma_lacks_join(a: Seq<WeightSlot>, b: Seq<WeightSlot>, l: int, w: LayerWeight)
    requires
        lacks(a, l, w),
        lacks(b, l, w),
    ensures
        lacks(a + b, l, w),
{
}

/// Only the layers with latent attention have a norm for the keys of a token index.
#[verifier::rlimit(40)]
proof fn lemma_no_token_index(m: ModelShape, l: int)
    requires
        !m.layers@[l].mla,
    ensures
        lacks(uploaded_layer(m, l), l, LayerWeight::IndexerKNorm),
{
    let w = LayerWeight::IndexerKNorm;
    let (a, b, c) = (norm_weights(m, l), uploaded_mixer(m, l), uploaded_after_mixer(m, l));
    let (d, e, f) = (middle_norms(m, l), uploaded_ffn(m, l), last_weights(m, l));
    assert(lacks(a, l, w));
    lemma_mixer_lacks(m, l, w);
    lemma_after_lacks(m, l, w);
    assert(lacks(d, l, w));
    lemma_ffn_lacks(m, l, w);
    lemma_lacks_join(a, b, l, w);
    lemma_lacks_join(a + b, c, l, w);
    lemma_lacks_join(a + b + c, d, l, w);
    lemma_lacks_join(a + b + c + d, e, l, w);
    lemma_lacks_join(a + b + c + d + e, f, l, w);
}

#[verifier::rlimit(40)]
proof fn lemma_mixer_lacks(m: ModelShape, l: int, w: LayerWeight)
    requires
        !m.layers@[l].mla,
        w == LayerWeight::IndexerKNorm,
    ensures
        lacks(uploaded_mixer(m, l), l, w),
{
    if m.deepseek4 {
        assert(lacks(dsv4_weights(l), l, w));
        assert(lacks(dsv4_hc_weights(l), l, w));
        assert(lacks(dsv4_compressor_weights(m, l), l, w));
        lemma_lacks_join(dsv4_weights(l), dsv4_hc_weights(l), l, w);
        lemma_lacks_join(
            dsv4_weights(l) + dsv4_hc_weights(l),
            dsv4_compressor_weights(m, l),
            l,
            w,
        );
    } else if m.kda(l) {
        assert(lacks(kda_weights(l), l, w));
    } else if m.delta(l) {
        assert(lacks(delta_weights(l), l, w));
    } else {
        assert(lacks(qkv_weights(m, l), l, w));
    }
}

#[verifier::rlimit(40)]
proof fn lemma_after_lacks(m: ModelShape, l: int, w: LayerWeight)
    requires
        w == LayerWeight::IndexerKNorm || (w == LayerWeight::QsaKNorm && m.layer_consistent(l)
            && m.layers@[l].mla),
    ensures
        lacks(uploaded_after_mixer(m, l), l, w),
{
    let a = if m.qkv_bias {
        bias_weights(l)
    } else {
        Seq::empty()
    };
    let b = if m.qk_norm && !m.delta(l) && !m.layers@[l].mla && !m.kda(l) {
        qk_norm_weights(l)
    } else {
        Seq::empty()
    };
    let c = slots_if(
        l,
        !m.delta(l) && !m.layers@[l].mla && !m.kda(l) && !m.deepseek4,
        seq![LayerWeight::AttnOutput],
    );
    let d = if m.qwen4exp && m.layers@[l].hybrid_attention {
        qsa_weights(l)
    } else {
        Seq::empty()
    };
    let e = ple_weights(m, l);
    assert(lacks(a, l, w));
    assert(lacks(b, l, w));
    assert(lacks(c, l, w));
    assert(lacks(d, l, w));
    assert(lacks(e, l, w));
    lemma_lacks_join(a, b, l, w);
    lemma_lacks_join(a + b, c, l, w);
    lemma_lacks_join(a + b + c, d, l, w);
    lemma_lacks_join(a + b + c + d, e, l, w);
}

#[verifier::rlimit(40)]
proof fn lemma_ffn_lacks(m: ModelShape, l: int, w: LayerWeight)
    requires
        w == LayerWeight::IndexerKNorm || w == LayerWeight::QsaKNorm,
    ensures
        lacks(uploaded_ffn(m, l), l, w),
        lacks(last_weights(m, l), l, w),
{
    if m.dual_moe {
        assert(lacks(dual_weights(m, l), l, w));
    } else if m.routed(l) {
        assert(lacks(bank_weights(m, l), l, w));
        assert(lacks(uploaded_routing(m, l), l, w));
        assert(lacks(shared_weights(m, l), l, w));
        lemma_lacks_join(bank_weights(m, l), uploaded_routing(m, l), l, w);
        lemma_lacks_join(
            bank_weights(m, l) + uploaded_routing(m, l),
            shared_weights(m, l),
            l,
            w,
        );
    } else {
        assert(lacks(dense_weights(m, l), l, w));
    }
}

/// No layer with latent attention has a norm for the keys of a block index.
#[verifier::rlimit(40)]
proof fn lemma_no_block_index(m: ModelShape, l: int)
    requires
        m.layer_consistent(l),
        m.layers@[l].mla,
    ensures
        lacks(uploaded_layer(m, l), l, LayerWeight::QsaKNorm),
{
    let w = LayerWeight::QsaKNorm;
    let (a, b, c) = (norm_weights(m, l), uploaded_mixer(m, l), uploaded_after_mixer(m, l));
    let (d, e, f) = (middle_norms(m, l), uploaded_ffn(m, l), last_weights(m, l));
    assert(lacks(a, l, w));
    assert(lacks(b, l, w)) by {
        assert(lacks(mla_weights(m, l), l, w));
    }
    lemma_after_lacks(m, l, w);
    assert(lacks(d, l, w));
    lemma_ffn_lacks(m, l, w);
    lemma_lacks_join(a, b, l, w);
    lemma_lacks_join(a + b, c, l, w);
    lemma_lacks_join(a + b + c, d, l, w);
    lemma_lacks_join(a + b + c + d, e, l, w);
    lemma_lacks_join(a + b + c + d + e, f, l, w);
}

/// No two different weights among those that are uploaded for a layer are read from the same
/// tensor.
pub proof fn law_an_uploaded_layer_reads_no_tensor_for_two_weights(
    m: ModelShape,
    l: int,
    i: int,
    j: int,
    a: LayerWeight,
    b: LayerWeight,
)
    requires
        m.layer_consistent(l),
        0 <= i < uploaded_layer(m, l).len(),
        0 <= j < uploaded_layer(m, l).len(),
        uploaded_layer(m, l)[i] == WeightSlot::Layer(l as usize, a),
        uploaded_layer(m, l)[j] == WeightSlot::Layer(l as usize, b),
        single(a),
        single(b),
        a != b,
    ensures
        a.tensors().len() == 1,
        b.tensors().len() == 1,
        a.tensors()[0] != b.tensors()[0],
{
    if m.layers@[l].mla {
        lemma_no_block_index(m, l);
    } else {
        lemma_no_token_index(m, l);
    }
    law_no_tensor_is_read_for_two_weights(a, b);
}

} // verus!
