# bulletou

Shogi data handling for training YaneuraOu-style evaluation functions
(KPPT, KPP_KKPT, NNUE HalfKP / KP / KA2 / HalfKPE9 / HalfKP_vm, SFNN
HalfKA_hm1 / HalfKA_hm2 / KA2 with layer stacks), written in Verus: every
function of the library carries a contract, and Verus proves it.

## Layout

- `src/shogi`: board, pieces, squares, BonaPiece numbering and the 40-byte
  packed training record (`PackedSfenValue`) with its decoder.
- `src/inputs`: the feature sets. Each one states its features as a
  sequence over the board's pieces, hands and kings, and proves every index
  below the input dimension. `mirror.rs` proves that the half-mirrored sets
  are unchanged by reflecting the board while the kings stay off the centre
  file.
- `src/outputs`: output buckets (material, progress, layer stacks) and the
  progress-model feature counts.
- `src/loader`: training-data formats (`.pack` games, HCPE, HCPE3, raw
  records), the expansion of games into records, the pack encoder with its
  proven decode round trip, shuffling and batch layout.
- `src/interleave.rs`, `src/validate.rs`, `src/teacher_path.rs`: the
  interleaving schedule of several teachers, sampling and locating
  validation records, and teacher-path parsing.
- `src/yaneuraou_kppt.rs`: the KK / KKP / KPP table layouts and the weight
  dump parser.
- `app/`: the command-line program around the library: file and directory
  access, the loaders' read loops, and the floating-point parts (model
  outputs, losses, quantisation).
- `tests/`: executable tests of the library.
