//! License terms shown before a benchmark is installed.
use vstd::prelude::*;
use crate::text::str_is;

verus! {

/// Terms of 7-Zip.
pub const EULA_7ZIP: &'static str = "7-Zip is free software by Igor Pavlov. Most of its code is distributed under the GNU Lesser General Public License (LGPL) version 2.1 or later; some parts are under the BSD 3-clause license, and the unRAR code is under the GNU LGPL with the unRAR license restriction: it may not be used to re-create the RAR compression algorithm. By installing it you accept these terms.";

/// Terms of Blender.
pub const EULA_BLENDER: &'static str = "Blender is free and open source software released by the Blender Foundation under the GNU General Public License (GPL) version 2 or later. You may use it for any purpose, including commercial work; redistribution of the program or of modified versions must keep the same license. By installing it you accept these terms.";

/// Terms of C-Ray.
pub const EULA_CRAY: &'static str = "C-Ray is a small ray-tracing benchmark by John Tsiombikas, distributed as open source software under the terms stated in its source distribution. It is provided as is, without warranty of any kind. By installing it you accept the terms of its upstream distribution.";

/// Terms of FFmpeg.
pub const EULA_FFMPEG: &'static str = "FFmpeg is free software licensed under the GNU Lesser General Public License (LGPL) version 2.1 or later; builds that enable optional GPL components, such as libx264 or libx265, are licensed under the GNU General Public License (GPL) version 2 or later. By installing it you accept these terms.";

/// Terms of fio.
pub const EULA_FIO: &'static str = "fio, the Flexible I/O Tester by Jens Axboe, is free software distributed under the GNU General Public License (GPL) version 2. It is provided without warranty of any kind. Disk benchmarks write test files and may wear storage devices. By installing it you accept these terms.";

/// Terms of Geekbench.
pub const EULA_GEEKBENCH: &'static str = "Geekbench is proprietary software by Primate Labs Inc. and is licensed, not sold, under the Primate Labs End User License Agreement. Results of the free version may be uploaded to the Geekbench Browser. Reverse engineering and redistribution are not permitted. By installing it you accept the Primate Labs EULA.";

/// Terms of GravityMark.
pub const EULA_GRAVITYMARK: &'static str = "GravityMark is a free GPU benchmark by Tellusim Technologies Inc., provided under the Tellusim license agreement that accompanies the download. It may be used free of charge for benchmarking; redistribution and modification are not permitted without permission. By installing it you accept these terms.";

/// Terms of llama-bench.
pub const EULA_LLAMA_BENCH: &'static str = "llama-bench is part of llama.cpp by Georgi Gerganov and contributors, released under the MIT License. Model files that it loads are covered by their own licenses, which you must accept separately. The software is provided as is, without warranty. By installing it you accept these terms.";

/// Terms of STREAM.
pub const EULA_STREAM: &'static str = "STREAM is a memory bandwidth benchmark by John D. McCalpin, distributed under the STREAM license: it may be freely used and modified, and published results must follow the STREAM run rules and be clearly marked when the code was modified. By installing it you accept these terms.";

/// Terms of the Unigine benchmarks.
pub const EULA_UNIGINE: &'static str = "The Unigine benchmarks (Heaven, Valley, Superposition) are proprietary software by UNIGINE, licensed under the UNIGINE end user license agreement shipped with the installer. The basic editions are free for personal use; commercial use requires a paid license. By installing them you accept the UNIGINE EULA.";

/// Terms of y-cruncher.
pub const EULA_YCRUNCHER: &'static str = "y-cruncher is freeware by Alexander J. Yee, distributed under the terms stated on its website and in its distribution. It may be used free of charge; it is provided as is, without warranty, and heavy computations stress the processor and memory. By installing it you accept these terms.";

/// Terms shown for a benchmark without its own text.
pub const EULA_DEFAULT: &'static str = "Standard Benchmark End User License Agreement & Terms of Use.";

/// The license text for a benchmark id.
pub open spec fn eula_text(id: Seq<char>) -> Seq<char> {
    if id == "7zip"@ {
        EULA_7ZIP@
    } else if id == "blender"@ {
        EULA_BLENDER@
    } else if id == "cray"@ {
        EULA_CRAY@
    } else if id == "ffmpeg"@ {
        EULA_FFMPEG@
    } else if id == "fio"@ {
        EULA_FIO@
    } else if id == "geekbench"@ {
        EULA_GEEKBENCH@
    } else if id == "gravitymark"@ {
        EULA_GRAVITYMARK@
    } else if id == "llama-bench"@ {
        EULA_LLAMA_BENCH@
    } else if id == "stream"@ {
        EULA_STREAM@
    } else if id == "unigine"@ {
        EULA_UNIGINE@
    } else if id == "ycruncher"@ {
        EULA_YCRUNCHER@
    } else {
        EULA_DEFAULT@
    }
}

/// Returns the license text for the specified benchmark id.
pub fn get_eula_for_benchmark(id: &str) -> (r: &'static str)
    ensures
        r@ == eula_text(id@),
{
    if str_is(id, "7zip") {
        EULA_7ZIP
    } else if str_is(id, "blender") {
        EULA_BLENDER
    } else if str_is(id, "cray") {
        EULA_CRAY
    } else if str_is(id, "ffmpeg") {
        EULA_FFMPEG
    } else if str_is(id, "fio") {
        EULA_FIO
    } else if str_is(id, "geekbench") {
        EULA_GEEKBENCH
    } else if str_is(id, "gravitymark") {
        EULA_GRAVITYMARK
    } else if str_is(id, "llama-bench") {
        EULA_LLAMA_BENCH
    } else if str_is(id, "stream") {
        EULA_STREAM
    } else if str_is(id, "unigine") {
        EULA_UNIGINE
    } else if str_is(id, "ycruncher") {
        EULA_YCRUNCHER
    } else {
        EULA_DEFAULT
    }
}

} // verus!
