//! Notes on producing images with Stable Diffusion on Core ML.

use vstd::prelude::*;

verus! {

/// The steps to set up, convert and run Stable Diffusion with Core ML, kept as
/// text; nothing is run.
pub fn download_stable_diffusion() {
    let _setup = "
        conda create -n coreml_stable_diffusion python=3.8 -y
        conda activate coreml_stable_diffusion
        cd /path/to/cloned/ml-stable-diffusion/repository
        pip install -e .
    ";
    let _convert = "python -m python_coreml_stable_diffusion.torch2coreml
              --convert-unet
              --convert-text-encoder
              --convert-vae-decoder
              --convert-safety-checker
              -o <output-mlpackages-directory>
    ";
    let _generate = "python -m python_coreml_stable_diffusion.pipeline
              --prompt \"a photo of an astronaut riding a horse on mars\"
              -i <output-mlpackages-directory>
              -o </path/to/output/image>
              --compute-unit ALL
              --seed 93
    ";
}

} // verus!
