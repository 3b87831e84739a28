//! The built-in model-card schema (JSON Schema Draft-07) and a sample
//! document that conforms to it.

use vstd::prelude::*;

verus! {

pub const MODELCARD_SCHEMA: &'static str = "{
  \"$schema\": \"http://json-schema.org/draft-07/schema#\",
  \"title\": \"Model Card\",
  \"type\": \"object\",
  \"properties\": {
    \"model_details\": {
      \"type\": \"object\",
      \"properties\": {
        \"name\": { \"type\": \"string\" },
        \"overview\": { \"type\": \"string\" },
        \"version\": {
          \"type\": \"object\",
          \"properties\": {
            \"name\": { \"type\": \"string\" },
            \"date\": { \"type\": \"string\" }
          }
        },
        \"owners\": {
          \"type\": \"array\",
          \"items\": {
            \"type\": \"object\",
            \"properties\": {
              \"name\": { \"type\": \"string\" },
              \"contact\": { \"type\": \"string\" }
            }
          }
        }
      },
      \"required\": [\"name\", \"overview\"]
    },
    \"considerations\": {
      \"type\": \"object\",
      \"properties\": {
        \"limitations\": { \"type\": \"array\", \"items\": { \"type\": \"string\" } },
        \"ethical_considerations\": { \"type\": \"array\", \"items\": { \"type\": \"string\" } }
      }
    },
    \"quantitative_analysis\": {
      \"type\": \"object\",
      \"properties\": {
        \"performance_metrics\": {
          \"type\": \"array\",
          \"items\": {
            \"type\": \"object\",
            \"properties\": {
              \"type\": { \"type\": \"string\" },
              \"value\": { \"type\": \"string\" }
            },
            \"required\": [\"type\", \"value\"]
          }
        }
      }
    }
  },
  \"required\": [\"model_details\"]
}
";

pub const MODELCARD_SAMPLE: &'static str = "{
  \"model_details\": {
    \"name\": \"Sample Model\",
    \"overview\": \"A small example model documented with a model card.\",
    \"version\": { \"name\": \"0.1.0\", \"date\": \"2024-01-01\" },
    \"owners\": [
      { \"name\": \"Model Team\", \"contact\": \"model-team@example.com\" }
    ]
  },
  \"considerations\": {
    \"limitations\": [\"Not evaluated outside the sample domain.\"],
    \"ethical_considerations\": [\"Review generated cards before publication.\"]
  },
  \"quantitative_analysis\": {
    \"performance_metrics\": [
      { \"type\": \"accuracy\", \"value\": \"0.97\" }
    ]
  }
}
";

/// The text of the built-in schema.
pub open spec fn schema_text() -> Seq<char> {
    MODELCARD_SCHEMA@
}

/// The text of the sample document.
pub open spec fn sample_text() -> Seq<char> {
    MODELCARD_SAMPLE@
}

/// The built-in model-card schema, as JSON text.
pub fn get_schema() -> (r: String)
    ensures
        r@ == schema_text(),
{
    MODELCARD_SCHEMA.to_owned()
}

/// A sample model-card document conforming to the built-in schema.
pub fn get_sample() -> (r: String)
    ensures
        r@ == sample_text(),
{
    MODELCARD_SAMPLE.to_owned()
}

} // verus!
