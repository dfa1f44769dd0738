use openinfer_glm52::bench::{
    assembly_launches, assembly_lens, attended_list, bf16_ones_bytes, check_scratch_parity,
    parse_args as parse_bench_args, projection_input_len, sweep_parts, BenchArgsError,
    Glm52AssemblyLaunch, Glm52BenchError, Glm52MlaDecodeBench,
};
use openinfer_glm52::load_args::{
    next_value, parse_args as parse_load_args, parse_usize, value_after_equals, LoadArgs,
    LoadArgsError, LoadCommand, LoadFlag,
};
use openinfer_glm52::stage::{
    rope_row, single_token, write_topk, Glm52StageDecode, Glm52StageError, Glm52StageOp,
    Glm52StageParts,
};

fn words(text: &str) -> Vec<String> {
    text.split_whitespace().map(str::to_string).collect()
}

fn load(text: &str) -> LoadArgs {
    match parse_load_args(&words(text)).unwrap() {
        LoadCommand::Load(args) => args,
        LoadCommand::Help => panic!("help was not asked for"),
    }
}

fn load_refusal(text: &str) -> String {
    parse_load_args(&words(text)).unwrap_err().message()
}

#[test]
fn loading_has_defaults() {
    let args = load("");
    assert_eq!(args.model_path, "models/GLM-5.2-FP8");
    assert_eq!((args.tp_size, args.dp_size), (1, 1));
}

#[test]
fn both_spellings_of_a_flag_are_read() {
    for text in [
        "--model-path /m --tp-size 2 --dp-size 4",
        "--model-path=/m --tp-size=2 --dp-size=4",
        "--dp-size 9 --model-path=/x --tp-size=2 --model-path /m --dp-size=4",
    ] {
        let args = load(text);
        assert_eq!(args.model_path, "/m", "{text}");
        assert_eq!((args.tp_size, args.dp_size), (2, 4), "{text}");
    }
}

#[test]
fn help_ends_the_reading() {
    for text in ["--help", "-h", "--tp-size 2 -h --nonsense"] {
        assert!(matches!(parse_load_args(&words(text)), Ok(LoadCommand::Help)), "{text}");
    }
}

#[test]
fn a_load_command_line_is_refused_with_a_reason() {
    assert_eq!(load_refusal("--tp-size"), "--tp-size requires a value");
    assert_eq!(load_refusal("--model-path="), "--model-path requires a non-empty value");
    assert_eq!(load_refusal("--dp-size x"), "invalid --dp-size: x");
    assert_eq!(load_refusal("--dp-size=-1"), "invalid --dp-size: -1");
    assert_eq!(load_refusal("--tp"), "unknown argument --tp");
    assert_eq!(load_refusal("--tp-size=1 stray --help"), "unknown argument stray");
}

#[test]
fn values_are_taken_one_by_one() {
    let args = words("a b");
    assert_eq!(next_value(&args, 1, LoadFlag::TpSize).unwrap(), "b");
    assert!(matches!(
        next_value(&args, 2, LoadFlag::TpSize),
        Err(LoadArgsError::MissingValue { flag: LoadFlag::TpSize })
    ));
    assert_eq!(value_after_equals("--model-path=a=b", LoadFlag::ModelPath).unwrap(), "a=b");
    for arg in ["--model-path", "--model-path=", "--model-pathx=1", "x"] {
        assert!(matches!(
            value_after_equals(arg, LoadFlag::ModelPath),
            Err(LoadArgsError::EmptyValue { flag: LoadFlag::ModelPath })
        ));
    }
    assert_eq!(parse_usize("+12", LoadFlag::DpSize).unwrap(), 12);
    assert!(parse_usize("1.5", LoadFlag::DpSize).is_err());
}

fn bench_refusal(text: &str) -> BenchArgsError {
    parse_bench_args(&words(text)).unwrap_err()
}

#[test]
fn benchmarking_has_defaults() {
    let args = parse_bench_args(&vec![]).unwrap();
    assert_eq!(args.contexts, vec![512, 2048]);
    assert_eq!((args.iters, args.sm_parts), (64, None));
}

#[test]
fn benchmark_flags_are_read() {
    let argv: Vec<String> =
        ["--contexts", "128, 256 ,+512", "--iters", "7", "--sm-parts", "16"].map(str::to_string).into();
    let args = parse_bench_args(&argv).unwrap();
    assert_eq!(args.contexts, vec![128, 256, 512]);
    assert_eq!((args.iters, args.sm_parts), (7, Some(16)));
}

#[test]
fn a_benchmark_command_line_is_refused_with_a_reason() {
    assert_eq!(bench_refusal("--iters").message(), "--iters needs a value");
    assert_eq!(
        bench_refusal("--fast").message(),
        "unknown flag `--fast` (supported: --contexts, --iters, --sm-parts)"
    );
    assert_eq!(
        bench_refusal("--iters 0").message(),
        "--contexts must be non-empty and --iters positive"
    );
    for (text, piece) in [("--contexts 1,,2", ""), ("--contexts 1,x,y", "x"), ("--iters -1", "-1")] {
        match bench_refusal(text) {
            BenchArgsError::InvalidNumber { text } => assert_eq!(text, piece),
            other => panic!("{other:?}"),
        }
    }
}

#[test]
fn a_benchmark_attends_over_its_context() {
    let bench = Glm52MlaDecodeBench::new(100, 132, true).unwrap();
    assert_eq!((bench.position, bench.num_blocks), (99, 2));
    assert_eq!(bench.cache_bytes, 2 * 64 * 656);
    assert_eq!(bench.topk.len(), 2048);
    assert_eq!((bench.topk[99], bench.topk[100]), (99, -1));
    assert_eq!(bench.default_num_sm_parts(), 132);
    assert_eq!(attended_list(5000), (0..2048).collect::<Vec<i32>>());
    assert!(matches!(
        Glm52MlaDecodeBench::new(0, 132, true),
        Err(Glm52BenchError::NoContext)
    ));
    assert!(matches!(
        Glm52MlaDecodeBench::new(1, 7, false),
        Err(Glm52BenchError::RejectedParts { parts: 7 })
    ));
}

#[test]
fn the_split_count_is_swept_with_the_default_last() {
    assert_eq!(sweep_parts(132), vec![1, 8, 16, 32, 64, 96, 132]);
    assert_eq!(sweep_parts(16), vec![1, 8, 32, 64, 96, 16]);
    let mut bench = Glm52MlaDecodeBench::new(100, 132, true).unwrap();
    assert!(bench.set_num_sm_parts(0, false).is_err());
    assert_eq!(bench.num_sm_parts, 132);
    bench.set_num_sm_parts(16, true).unwrap();
    assert_eq!(bench.num_sm_parts, 16);
    assert_eq!(bench.default_num_sm_parts(), 132);
}

#[test]
fn projections_are_measured_over_their_inputs() {
    for (which, len) in [("q_a", 6144), ("q_b", 2048), ("kv_a", 6144), ("o_proj", 16_384)] {
        assert_eq!(projection_input_len(which).unwrap(), len);
    }
    assert!(matches!(
        projection_input_len("kv_b"),
        Err(Glm52BenchError::UnknownProjection { which }) if which == "kv_b"
    ));
}

#[test]
fn forwards_are_held_against_each_other_bit_by_bit() {
    assert!(check_scratch_parity(&vec![1, 2, 3], &vec![1, 2, 3]).is_ok());
    assert!(check_scratch_parity(&vec![1, 2, 3], &vec![1, 2]).is_ok());
    assert!(matches!(
        check_scratch_parity(&vec![1, 2, 3], &vec![0, 2, 0]),
        Err(Glm52BenchError::ScratchDiverges { mismatches: 2, total: 3 })
    ));
}

#[test]
fn benchmark_inputs_are_ones() {
    for bytes in bf16_ones_bytes(3).chunks_exact(2) {
        assert_eq!(half::bf16::from_le_bytes([bytes[0], bytes[1]]), half::bf16::ONE);
    }
    assert_eq!(bf16_ones_bytes(3).len(), 6);
}

#[test]
fn the_assembly_family_has_three_launches() {
    assert_eq!(
        assembly_launches(9),
        vec![
            Glm52AssemblyLaunch::QueryAssemble { nope: 192, head_dim: 256 },
            Glm52AssemblyLaunch::LatentQuant { rows: 1, width: 512, group: 128 },
            Glm52AssemblyLaunch::CachePack { position: 9 },
        ]
    );
    assert_eq!(assembly_lens().query, 64 * 576);
    assert_eq!(assembly_lens().latent_scales, 4);
}

fn stage(embed: bool, final_norm: bool, lm_head: bool) -> Glm52StageDecode {
    Glm52StageDecode {
        index: 2,
        parts: Glm52StageParts { embed, final_norm, lm_head },
        dense: vec![true, false],
    }
}

#[test]
fn a_stage_runs_two_residual_blocks_per_layer() {
    let ops = stage(false, false, false).run_layers(6144, 5).unwrap();
    assert_eq!(
        ops,
        vec![
            Glm52StageOp::InputNorm { layer: 0 },
            Glm52StageOp::Attention { layer: 0, position: 5 },
            Glm52StageOp::AddAttention,
            Glm52StageOp::PostNorm { layer: 0 },
            Glm52StageOp::DenseMlp { layer: 0 },
            Glm52StageOp::AddMlp,
            Glm52StageOp::InputNorm { layer: 1 },
            Glm52StageOp::Attention { layer: 1, position: 5 },
            Glm52StageOp::AddAttention,
            Glm52StageOp::PostNorm { layer: 1 },
            Glm52StageOp::MoeMlp { layer: 1 },
            Glm52StageOp::AddMlp,
        ]
    );
    let last = stage(false, true, true).run_layers_and_head(6144, 5).unwrap();
    assert_eq!(&last[12..], &[Glm52StageOp::FinalNorm, Glm52StageOp::Head]);
    assert_eq!(stage(false, true, true).cache_bytes(), vec![32 * 64 * 656; 2]);
    assert!(stage(false, true, true).owns_head());
    assert_eq!(stage(false, true, true).stage(), 2);
}

#[test]
fn a_stage_is_refused_with_a_reason() {
    let error = stage(false, true, true).check_embed().unwrap_err();
    assert_eq!(error.message(), "GLM5.2 stage 2 has no embedding table");
    assert_eq!(stage(true, true, true).check_embed(), Ok(()));
    let error = stage(true, true, true).run_layers(6143, 5000).unwrap_err();
    assert_eq!(error.message(), "GLM5.2 stage 2 hidden input len 6143 != 6144");
    let error = stage(true, true, true).run_layers(6144, 2048).unwrap_err();
    assert_eq!(error.message(), "GLM5.2 decode position 2048 exceeds MAX_CTX 2048");
    let error = stage(true, false, false).run_layers_and_head(6144, 0).unwrap_err();
    assert_eq!(error, Glm52StageError::NoFinalNorm { stage: 2 });
    assert_eq!(error.message(), "GLM5.2 stage 2 has no final norm");
    let error = stage(true, true, false).run_layers_and_head(6144, 0).unwrap_err();
    assert_eq!(error.message(), "GLM5.2 stage 2 has no lm_head");
}

#[test]
fn a_token_attends_to_itself_and_before() {
    let topk = write_topk(2);
    assert_eq!(&topk[..4], &[0, 1, 2, -1]);
    assert_eq!(topk.len(), 2048);
    assert_eq!(write_topk(2047)[2047], 2047);
    assert_eq!(rope_row(3), (96, 128));
    assert_eq!(single_token(63, 1), Ok((63, 64)));
    let error = single_token(64, 1).unwrap_err();
    assert_eq!(error.message(), "GLM5.2 MLA position 64 outside paged cache (1 blocks x 64)");
}
